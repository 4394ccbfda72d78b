//! The engine: which zones send an update in a tick, what they send, and how
//! the tick ends.

use crate::color::{lemma_same_sample, ZoneColor};
use crate::frame::Frame;
use crate::lights::{LightCommand, LightCommandView, LightController, MessageColor};
use crate::rate::AdaptiveRate;
use crate::transition::{calculate_transition, transition_for, TRANSITION_MAX_MS};
use crate::zone::{SampleError, ZoneSampler};
use vstd::prelude::*;

verus! {

/// The settings of the loop. `percent_thread_work` is the share of an
/// interval that work may take, in thousandths; `fps_reporting` the seconds
/// between two reports of the cadence.
#[derive(Clone, Copy, Debug, PartialEq, Eq, Structural)]
pub struct PerformanceConfig {
    pub max_fps: u64,
    pub max_delay: u64,
    pub refresh_threshold: u8,
    pub percent_thread_work: u32,
    pub fps_reporting: u64,
}

/// A zone, its light, and the sample that the light was last sent.
#[derive(Clone, Debug)]
pub struct ZonePair {
    pub zone: ZoneSampler,
    pub zone_light: LightController,
    pub previous_sample: Option<ZoneColor>,
}

impl ZonePair {
    /// Whether `sample` is sent: always the first time, and afterwards where
    /// it differs from the sample sent last by more than the threshold.
    pub open spec fn updates(self, sample: ZoneColor, threshold: u8) -> bool {
        match self.previous_sample {
            None => true,
            Some(previous) => sample.exceeds(previous, threshold),
        }
    }

    /// The fade to `sample`: the longest the first time, afterwards by the
    /// distance from the sample sent last.
    pub open spec fn fade_to(self, sample: ZoneColor) -> int {
        match self.previous_sample {
            None => TRANSITION_MAX_MS as int,
            Some(previous) => transition_for(sample.distance_squared(previous)),
        }
    }

    /// The command sent for `sample`, where one is sent.
    pub open spec fn command_to(self, sample: ZoneColor) -> LightCommandView {
        self.zone_light.command_for(MessageColor::derived(sample), self.fade_to(sample) as u32)
    }

    /// The pair after it has seen `sample`: a sample that is sent is remembered,
    /// one that is not leaves the pair as it was.
    pub open spec fn observed(self, sample: ZoneColor, threshold: u8) -> ZonePair {
        if self.updates(sample, threshold) {
            ZonePair { previous_sample: Some(sample), ..self }
        } else {
            self
        }
    }

    pub fn new(
        zone: ZoneSampler,
        zone_light: LightController,
        previous_sample: Option<ZoneColor>,
    ) -> (pair: Self)
        ensures
            pair == (ZonePair { zone, zone_light, previous_sample }),
    {
        ZonePair { zone, zone_light, previous_sample }
    }

    /// Takes in the sample of this tick. Where it is to be sent, the command
    /// is returned and the sample remembered, whether or not the command is
    /// delivered later on.
    pub fn observe(&mut self, sample: ZoneColor, threshold: u8) -> (command: Option<LightCommand>)
        ensures
            *final(self) == old(self).observed(sample, threshold),
            command.is_some() == old(self).updates(sample, threshold),
            command matches Some(c) ==> c@ == old(self).command_to(sample),
    {
        let fade: u32 = match &self.previous_sample {
            None => TRANSITION_MAX_MS,
            Some(previous) => {
                if !sample.differs_from(previous, threshold) {
                    return None;
                }
                calculate_transition(&sample, previous)
            },
        };
        let color = MessageColor::from(sample);
        let command = self.zone_light.set_light(color, Some(fade));
        self.previous_sample = Some(sample);
        Some(command)
    }
}

/// What a tick asks for: the commands to publish, in the order of the zones,
/// and the error that stopped the tick, where one did.
#[derive(Debug)]
pub struct TickReport {
    pub commands: Vec<LightCommand>,
    pub failure: Option<SampleError>,
}

/// What the end of a tick asks for: the cadence to report, where a report is
/// due, and the milliseconds to sleep before the next tick. With a sleep of 0
/// the work took the whole interval of the tick or more.
#[derive(Clone, Copy, Debug, PartialEq, Eq, Structural)]
pub struct TickEnd {
    pub report: Option<CadenceReport>,
    pub sleep: u64,
}

/// The cadence since the last report: the mean interval in milliseconds,
/// rounded down, and the frames per second that it comes to, in hundredths
/// and rounded down. A mean interval of 0 comes to no frame rate.
#[derive(Clone, Copy, Debug, PartialEq, Eq, Structural)]
pub struct CadenceReport {
    pub average_interval: u64,
    pub fps_hundredths: Option<u64>,
}

/// The capture-and-synchronisation loop, one tick at a time.
#[derive(Debug)]
pub struct SyncEngine {
    pub zones: Vec<ZonePair>,
    pub rate: AdaptiveRate,
    pub config: PerformanceConfig,
    pub downsample: u8,
    pub interval_samples: Vec<u64>,
}

/// The commands as contracts speak of them.
pub open spec fn views(commands: Seq<LightCommand>) -> Seq<LightCommandView> {
    commands.map_values(|c: LightCommand| c@)
}

/// The first zone at or after `from` that cannot be sampled from the frame,
/// or the number of zones where there is none.
pub open spec fn first_failure(zones: Seq<ZonePair>, frame: Frame, stride: u8, from: nat) -> nat
    decreases zones.len() - from,
{
    if from >= zones.len() {
        zones.len()
    } else if zones[from as int].zone.config.sampled(frame, stride) is Err {
        from
    } else {
        first_failure(zones, frame, stride, from + 1)
    }
}

/// The commands that the first `count` zones send, in their order.
pub open spec fn commands_of(
    zones: Seq<ZonePair>,
    frame: Frame,
    stride: u8,
    threshold: u8,
    count: nat,
) -> Seq<LightCommandView>
    decreases count,
{
    if count == 0 {
        Seq::empty()
    } else {
        let before = commands_of(zones, frame, stride, threshold, (count - 1) as nat);
        let pair = zones[count - 1];
        match pair.zone.config.sampled(frame, stride) {
            Ok(sample) => if pair.updates(sample, threshold) {
                before.push(pair.command_to(sample))
            } else {
                before
            },
            Err(_) => before,
        }
    }
}

/// The zone at `index` after a tick that got as far as `reached` zones.
pub open spec fn zone_after(
    zones: Seq<ZonePair>,
    frame: Frame,
    stride: u8,
    threshold: u8,
    reached: nat,
    index: int,
) -> ZonePair {
    match zones[index].zone.config.sampled(frame, stride) {
        Ok(sample) => if index < reached {
            zones[index].observed(sample, threshold)
        } else {
            zones[index]
        },
        Err(_) => zones[index],
    }
}

/// The sum of the intervals.
pub open spec fn total(intervals: Seq<u64>) -> int
    decreases intervals.len(),
{
    if intervals.len() == 0 {
        0
    } else {
        total(intervals.drop_last()) + intervals.last()
    }
}

/// The report over the intervals, of which there is at least one.
pub open spec fn cadence_of(intervals: Seq<u64>) -> CadenceReport {
    let average = total(intervals) / (intervals.len() as int);
    CadenceReport {
        average_interval: average as u64,
        fps_hundredths: if average == 0 {
            None
        } else {
            Some((100_000int / average) as u64)
        },
    }
}

/// A zone that has sent nothing yet sends its first sample, whatever the
/// threshold, and with the longest fade.
pub proof fn lemma_first_sample_is_sent(pair: ZonePair, sample: ZoneColor, threshold: u8)
    requires
        pair.previous_sample is None,
    ensures
        pair.updates(sample, threshold),
        pair.fade_to(sample) == TRANSITION_MAX_MS,
        pair.observed(sample, threshold).previous_sample == Some(sample),
{
}

/// A zone whose sample is the one it sent last sends nothing, whatever the
/// threshold, and stays as it was.
pub proof fn lemma_same_sample_is_kept(pair: ZonePair, sample: ZoneColor, threshold: u8)
    requires
        pair.previous_sample == Some(sample),
    ensures
        !pair.updates(sample, threshold),
        pair.observed(sample, threshold) == pair,
{
    lemma_same_sample(sample, threshold);
}

/// Where none of the first `count` zones has sent anything yet and each can
/// be sampled, each of them sends a command.
pub proof fn lemma_first_tick_sends_all(
    zones: Seq<ZonePair>,
    frame: Frame,
    stride: u8,
    threshold: u8,
    count: nat,
)
    requires
        count <= zones.len(),
        forall|i: int|
            0 <= i < count ==> (#[trigger] zones[i]).previous_sample is None
                && zones[i].zone.config.sampled(frame, stride) is Ok,
    ensures
        commands_of(zones, frame, stride, threshold, count).len() == count,
    decreases count,
{
    if count > 0 {
        lemma_first_tick_sends_all(zones, frame, stride, threshold, (count - 1) as nat);
        assert(zones[count - 1].previous_sample is None);
    }
}

/// Where each of the first `count` zones samples the colour that it sent
/// last, none of them sends a command, and each stays as it was.
pub proof fn lemma_still_tick_sends_nothing(
    zones: Seq<ZonePair>,
    frame: Frame,
    stride: u8,
    threshold: u8,
    count: nat,
)
    requires
        count <= zones.len(),
        forall|i: int|
            0 <= i < count ==> ((#[trigger] zones[i]).zone.config.sampled(frame, stride) matches Ok(
                sample,
            ) && zones[i].previous_sample == Some(sample)),
    ensures
        commands_of(zones, frame, stride, threshold, count) == Seq::<LightCommandView>::empty(),
        forall|i: int|
            0 <= i < count ==> zone_after(zones, frame, stride, threshold, count, i) == zones[i],
    decreases count,
{
    if count > 0 {
        lemma_still_tick_sends_nothing(zones, frame, stride, threshold, (count - 1) as nat);
        let pair = zones[count - 1];
        assert(pair.zone.config.sampled(frame, stride) is Ok);
        lemma_same_sample_is_kept(pair, pair.previous_sample->0, threshold);
    }
    assert forall|i: int| 0 <= i < count implies zone_after(
        zones,
        frame,
        stride,
        threshold,
        count,
        i,
    ) == zones[i] by {
        let pair = zones[i];
        assert(pair.zone.config.sampled(frame, stride) is Ok);
        lemma_same_sample_is_kept(pair, pair.previous_sample->0, threshold);
    }
}

/// A sum of intervals is at most the largest interval for each of them.
pub proof fn lemma_total_bounds(intervals: Seq<u64>)
    ensures
        0 <= total(intervals) <= intervals.len() * u64::MAX,
    decreases intervals.len(),
{
    if intervals.len() > 0 {
        lemma_total_bounds(intervals.drop_last());
        assert(intervals.len() * u64::MAX == (intervals.len() - 1) * u64::MAX + u64::MAX)
            by (nonlinear_arith);
    }
}

impl SyncEngine {
    /// The samples of the cadence once the interval of this tick is added.
    pub open spec fn intervals_with_current(self) -> Seq<u64> {
        self.interval_samples@.push(self.rate.current_interval)
    }

    /// Whether a report of the cadence is due `since_report` seconds after the last one.
    pub open spec fn report_due(self, since_report: u64) -> bool {
        since_report >= self.config.fps_reporting
    }

    /// An engine that has sent nothing yet and holds no samples of its cadence.
    pub fn new(
        zones: Vec<ZonePair>,
        rate: AdaptiveRate,
        config: PerformanceConfig,
        downsample: u8,
    ) -> (engine: Self)
        ensures
            engine.zones == zones,
            engine.rate == rate,
            engine.config == config,
            engine.downsample == downsample,
            engine.interval_samples@ == Seq::<u64>::empty(),
    {
        SyncEngine { zones, rate, config, downsample, interval_samples: Vec::new() }
    }

    /// The fade in milliseconds from `previous` to `sample`.
    pub fn calculate_transition(sample: &ZoneColor, previous: &ZoneColor) -> (fade: u32)
        ensures
            fade == transition_for(sample.distance_squared(*previous)),
    {
        calculate_transition(sample, previous)
    }

    /// One tick over `frame`: every zone is sampled in turn, and the zones
    /// that changed enough hand in a command. A zone that cannot be sampled
    /// stops the tick: the zones before it have done their part, the others
    /// are left as they were. The rate is not touched.
    pub fn tick(&mut self, frame: &Frame) -> (report: TickReport)
        ensures
            final(self).rate == old(self).rate,
            final(self).config == old(self).config,
            final(self).downsample == old(self).downsample,
            final(self).interval_samples == old(self).interval_samples,
            final(self).zones@.len() == old(self).zones@.len(),
            forall|i: int|
                0 <= i < old(self).zones@.len() ==> final(self).zones@[i] == zone_after(
                    old(self).zones@,
                    *frame,
                    old(self).downsample,
                    old(self).config.refresh_threshold,
                    first_failure(old(self).zones@, *frame, old(self).downsample, 0),
                    i,
                ),
            views(report.commands@) == commands_of(
                old(self).zones@,
                *frame,
                old(self).downsample,
                old(self).config.refresh_threshold,
                first_failure(old(self).zones@, *frame, old(self).downsample, 0),
            ),
            report.failure == (if first_failure(old(self).zones@, *frame, old(self).downsample, 0)
                < old(self).zones@.len() {
                match old(self).zones@[first_failure(
                    old(self).zones@,
                    *frame,
                    old(self).downsample,
                    0,
                ) as int].zone.config.sampled(*frame, old(self).downsample) {
                    Ok(_) => None,
                    Err(e) => Some(e),
                }
            } else {
                None
            }),
    {
        let mut commands: Vec<LightCommand> = Vec::new();
        let threshold = self.config.refresh_threshold;
        let stride = self.downsample;
        let ghost before = self.zones@;
        let mut index: usize = 0;
        assert(views(commands@) =~= commands_of(before, *frame, stride, threshold, 0));
        while index < self.zones.len()
            invariant
                index <= self.zones@.len(),
                self.zones@.len() == before.len(),
                before == old(self).zones@,
                threshold == old(self).config.refresh_threshold,
                stride == old(self).downsample,
                self.rate == old(self).rate,
                self.config == old(self).config,
                self.downsample == old(self).downsample,
                self.interval_samples == old(self).interval_samples,
                first_failure(before, *frame, stride, 0) == first_failure(
                    before,
                    *frame,
                    stride,
                    index as nat,
                ),
                forall|i: int|
                    0 <= i < index ==> self.zones@[i] == zone_after(
                        before,
                        *frame,
                        stride,
                        threshold,
                        index as nat,
                        i,
                    ),
                forall|i: int| index <= i < before.len() ==> self.zones@[i] == before[i],
                views(commands@) == commands_of(before, *frame, stride, threshold, index as nat),
            decreases self.zones@.len() - index,
        {
            let sampled = self.zones[index].zone.sample(frame, stride);
            match sampled {
                Err(e) => {
                    return TickReport { commands, failure: Some(e) };
                },
                Ok(sample) => {
                    let ghost shown = views(commands@);
                    let command = self.zones[index].observe(sample, threshold);
                    match command {
                        Some(c) => {
                            commands.push(c);
                            assert(views(commands@) =~= shown.push(c@));
                        },
                        None => {},
                    }
                },
            }
            index = index + 1;
        }
        TickReport { commands, failure: None }
    }

    /// A command of this tick was not delivered: the rate is throttled.
    pub fn publish_failed(&mut self)
        ensures
            *final(self) == (SyncEngine { rate: old(self).rate.throttled(), ..*old(self) }),
    {
        self.rate.on_failure();
    }

    /// The mean of the samples of the cadence, rounded down, and the frame
    /// rate it comes to.
    fn cadence(&self) -> (report: CadenceReport)
        requires
            self.interval_samples@.len() > 0,
        ensures
            report == cadence_of(self.interval_samples@),
    {
        let count: usize = self.interval_samples.len();
        let mut sum: u128 = 0;
        let mut index: usize = 0;
        while index < count
            invariant
                index <= count,
                count == self.interval_samples@.len(),
                sum == total(self.interval_samples@.take(index as int)),
            decreases count - index,
        {
            proof {
                let upto = self.interval_samples@.take(index as int + 1);
                assert(upto.drop_last() =~= self.interval_samples@.take(index as int));
                lemma_total_bounds(self.interval_samples@.take(index as int));
                assert(index * u64::MAX <= usize::MAX * u64::MAX) by (nonlinear_arith)
                    requires
                        index <= usize::MAX,
                ;
            }
            sum = sum + self.interval_samples[index] as u128;
            index = index + 1;
        }
        proof {
            assert(self.interval_samples@.take(count as int) =~= self.interval_samples@);
            lemma_total_bounds(self.interval_samples@);
            assert(sum / (count as u128) <= u64::MAX) by (nonlinear_arith)
                requires
                    0 <= sum <= count * u64::MAX,
                    count > 0,
            ;
        }
        let average: u64 = (sum / count as u128) as u64;
        CadenceReport {
            average_interval: average,
            fps_hundredths: if average == 0 {
                None
            } else {
                Some(100_000 / average)
            },
        }
    }

    /// Adds the current interval to the samples of the cadence. Where a
    /// report is due, `since_report` seconds after the last one, it is made
    /// over all the samples, and the samples start anew.
    pub fn send_fps_message(&mut self, since_report: u64) -> (report: Option<CadenceReport>)
        ensures
            final(self).zones == old(self).zones,
            final(self).rate == old(self).rate,
            final(self).config == old(self).config,
            final(self).downsample == old(self).downsample,
            report == (if old(self).report_due(since_report) {
                Some(cadence_of(old(self).intervals_with_current()))
            } else {
                None
            }),
            final(self).interval_samples@ == (if old(self).report_due(since_report) {
                Seq::<u64>::empty()
            } else {
                old(self).intervals_with_current()
            }),
    {
        self.interval_samples.push(self.rate.current_interval);
        if since_report >= self.config.fps_reporting {
            let report = self.cadence();
            self.interval_samples.clear();
            Some(report)
        } else {
            None
        }
    }

    /// Ends a tick whose work took `work_time` milliseconds, `since_report`
    /// seconds after the last report of the cadence: first the cadence takes
    /// in the interval of this tick, then the rate is adjusted to the work.
    /// The sleep is what the work left of the interval of this tick.
    pub fn end_tick(&mut self, work_time: u64, since_report: u64) -> (end: TickEnd)
        ensures
            final(self).zones == old(self).zones,
            final(self).config == old(self).config,
            final(self).downsample == old(self).downsample,
            final(self).rate == old(self).rate.adjusted(work_time),
            end.sleep == old(self).rate.sleep_after(work_time),
            end.report == (if old(self).report_due(since_report) {
                Some(cadence_of(old(self).intervals_with_current()))
            } else {
                None
            }),
            final(self).interval_samples@ == (if old(self).report_due(since_report) {
                Seq::<u64>::empty()
            } else {
                old(self).intervals_with_current()
            }),
    {
        let report = self.send_fps_message(since_report);
        let sleep = self.rate.adjust_timing(work_time);
        TickEnd { report, sleep }
    }
}

} // verus!
