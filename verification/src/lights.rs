//! What is sent to a light: the colour derived from a sample, and the command
//! that carries it.

use crate::color::ZoneColor;
use crate::power::{
    find_largest_within, largest_within, lemma_largest_within_bounds, lemma_pow_base_monotone,
    raise, weight,
};
use vstd::arithmetic::power::{lemma_pow_adds, pow};
use vstd::prelude::*;
use vstd::std_specs::convert::FromSpecImpl;
use vstd::string::StringExecFns;

verus! {

/// Below this brightness the colour is drawn towards warm white.
pub const BRIGHTNESS_COLOR_THRESH: u8 = 25;

/// The lowest brightness that is ever sent.
pub const MIN_BRIGHTNESS: u8 = 1;

/// The warm white that dark samples are drawn towards.
pub const WARM_RED: u8 = 250;

pub const WARM_GREEN: u8 = 210;

pub const WARM_BLUE: u8 = 190;

/// Ten to the power 21: a thousand to the seventh power.
pub const LUMA_SCALE: u128 = 1_000_000_000_000_000_000_000;

/// 255 to the third power.
pub const FULL_CUBED: u128 = 16_581_375;

/// The protocol family a light is driven through.
#[derive(Clone, Copy, Debug, PartialEq, Eq, Structural)]
pub enum LightService {
    Zigbee2MQTT,
    ZHA,
    HueAPI,
}

/// One light: how it is reached, its name, and the scale applied to every
/// brightness sent to it, in thousandths (1000 leaves the brightness as it is).
#[derive(Clone, Debug)]
pub struct LightConfig {
    pub service: LightService,
    pub light_name: String,
    pub brightness: u32,
}

/// The colour and brightness that is sent to a light.
#[derive(Clone, Copy, Debug, PartialEq, Eq, Structural)]
pub struct MessageColor {
    pub r: u8,
    pub g: u8,
    pub b: u8,
    pub brightness: u8,
}

/// The perceived brightness of a sample in thousandths:
/// `0.299 r + 0.587 g + 0.114 b`, times a thousand.
pub open spec fn luma_milli(sample: ZoneColor) -> int {
    299 * sample.r + 587 * sample.g + 114 * sample.b
}

/// Whether `k / 255 <= (luma / 255)^0.7`, with the luma given in thousandths.
/// Both sides are raised to the tenth power to stay within whole numbers.
pub open spec fn boost_reaches(k: int, luma: int) -> bool {
    pow(k, 10) * pow(255_000, 7) <= pow(255, 10) * pow(luma, 7)
}

/// The luma after the boost `255 * (luma / 255)^0.7`, rounded down: the
/// largest `k` up to 255 with `k^10 * 10^21 <= 255^3 * luma^7`.
pub open spec fn boosted(luma: int) -> nat {
    largest_within(255, 5, 1, LUMA_SCALE as int, FULL_CUBED * pow(luma, 7))
}

/// The brightness sent for a sample: its boosted luma, but at least `MIN_BRIGHTNESS`.
pub open spec fn derived_brightness(sample: ZoneColor) -> int {
    if boosted(luma_milli(sample)) < MIN_BRIGHTNESS {
        MIN_BRIGHTNESS as int
    } else {
        boosted(luma_milli(sample)) as int
    }
}

/// A channel mixed with its warm reference: at brightness `BRIGHTNESS_COLOR_THRESH`
/// the channel alone, at brightness 0 the reference alone, rounded down.
pub open spec fn blended(channel: u8, warm: u8, brightness: int) -> int {
    (channel * brightness + warm * (BRIGHTNESS_COLOR_THRESH - brightness))
        / (BRIGHTNESS_COLOR_THRESH as int)
}

impl MessageColor {
    /// The colour and brightness derived from a sample.
    pub open spec fn derived(sample: ZoneColor) -> MessageColor {
        let brightness = derived_brightness(sample);
        if brightness < BRIGHTNESS_COLOR_THRESH {
            MessageColor {
                r: blended(sample.r, WARM_RED, brightness) as u8,
                g: blended(sample.g, WARM_GREEN, brightness) as u8,
                b: blended(sample.b, WARM_BLUE, brightness) as u8,
                brightness: brightness as u8,
            }
        } else {
            MessageColor { r: sample.r, g: sample.g, b: sample.b, brightness: brightness as u8 }
        }
    }

    pub fn new(r: u8, g: u8, b: u8, brightness: u8) -> (color: Self)
        ensures
            color == (MessageColor { r, g, b, brightness }),
    {
        MessageColor { r, g, b, brightness }
    }
}

/// The values of the powers of the constants that the boost is stated with.
proof fn lemma_boost_constants()
    ensures
        pow(255, 5) == 1_078_203_909_375,
        pow(255, 10) == 70_110_209_207_109_375 * FULL_CUBED,
        pow(255_000, 7) == 70_110_209_207_109_375 * LUMA_SCALE,
{
    reveal_with_fuel(pow, 11);
}

/// The seventh power of a luma fits in 128 bits.
proof fn lemma_luma_power_fits(luma: int)
    requires
        0 <= luma <= 255_000,
    ensures
        0 <= pow(luma, 7) <= 70_110_209_207_109_375 * LUMA_SCALE,
        70_110_209_207_109_375 * LUMA_SCALE <= u128::MAX,
{
    lemma_boost_constants();
    lemma_pow_base_monotone(luma, 255_000, 7);
}

/// The weight that the search compares is the left side of `boost_reaches`,
/// up to a factor that both sides share.
proof fn lemma_boost_weight(k: int, luma: int)
    ensures
        boost_reaches(k, luma) <==> weight(k, 5, 1, LUMA_SCALE as int) <= FULL_CUBED * pow(
            luma,
            7,
        ),
{
    lemma_boost_constants();
    lemma_pow_adds(k, 5, 5);
    let p = pow(k, 5);
    let scale = LUMA_SCALE as int;
    let cubed = FULL_CUBED as int;
    let shared = 70_110_209_207_109_375int;
    let left = pow(k, 10) * scale;
    let right = cubed * pow(luma, 7);
    assert((p * 1) * (p * scale) == (p * p) * scale) by (nonlinear_arith);
    assert(pow(k, 10) * (shared * scale) == shared * left) by (nonlinear_arith)
        requires
            left == pow(k, 10) * scale,
    ;
    assert((shared * cubed) * pow(luma, 7) == shared * right) by (nonlinear_arith)
        requires
            right == cubed * pow(luma, 7),
    ;
    assert(shared * left <= shared * right <==> left <= right) by (nonlinear_arith)
        requires
            shared > 0,
    ;
}

/// The boosted luma is the boost rounded down: it reaches the boost, and the
/// next value, unless the cap of 255 comes first, does not.
pub proof fn lemma_boosted_is_floor(luma: int)
    requires
        0 <= luma,
    ensures
        boosted(luma) <= 255,
        boost_reaches(boosted(luma) as int, luma),
        boosted(luma) == 255 || !boost_reaches(boosted(luma) as int + 1, luma),
{
    let k = boosted(luma) as int;
    lemma_largest_within_bounds(255, 5, 1, LUMA_SCALE as int, FULL_CUBED * pow(luma, 7));
    lemma_boost_weight(k, luma);
    lemma_boost_weight(k + 1, luma);
    if k == 0 {
        lemma_pow_base_monotone(0, luma, 7);
        reveal_with_fuel(pow, 6);
        assert(weight(0, 5, 1, LUMA_SCALE as int) == 0);
    }
}

/// A brighter sample is never given a lower brightness.
pub proof fn lemma_boosted_monotone(darker: int, brighter: int)
    requires
        0 <= darker <= brighter,
    ensures
        boosted(darker) <= boosted(brighter),
{
    let scale = LUMA_SCALE as int;
    let low = FULL_CUBED * pow(darker, 7);
    let high = FULL_CUBED * pow(brighter, 7);
    lemma_pow_base_monotone(darker, brighter, 7);
    lemma_largest_within_bounds(255, 5, 1, scale, low);
    lemma_largest_within_bounds(255, 5, 1, scale, high);
}

/// The brightness of a derived colour does not fall when the luma of the sample grows.
pub proof fn lemma_brightness_monotone(darker: ZoneColor, brighter: ZoneColor)
    requires
        luma_milli(darker) <= luma_milli(brighter),
    ensures
        MessageColor::derived(darker).brightness <= MessageColor::derived(brighter).brightness,
{
    lemma_boosted_monotone(luma_milli(darker), luma_milli(brighter));
    lemma_brightness_range(darker);
    lemma_brightness_range(brighter);
}

/// The brightness of a derived colour lies between `MIN_BRIGHTNESS` and 255.
pub proof fn lemma_brightness_range(sample: ZoneColor)
    ensures
        MIN_BRIGHTNESS <= derived_brightness(sample) <= 255,
        MessageColor::derived(sample).brightness == derived_brightness(sample),
{
    lemma_largest_within_bounds(
        255,
        5,
        1,
        LUMA_SCALE as int,
        FULL_CUBED * pow(luma_milli(sample), 7),
    );
}

/// A blended channel lies between the channel and its warm reference.
pub proof fn lemma_blended_between(channel: u8, warm: u8, brightness: int)
    requires
        0 <= brightness <= BRIGHTNESS_COLOR_THRESH,
    ensures
        channel <= warm ==> channel <= blended(channel, warm, brightness) <= warm,
        warm <= channel ==> warm <= blended(channel, warm, brightness) <= channel,
{
    let c = channel as int;
    let w = warm as int;
    let mix = c * brightness + w * (25 - brightness);
    if c <= w {
        assert(25 * c <= mix <= 25 * w) by (nonlinear_arith)
            requires
                mix == c * brightness + w * (25 - brightness),
                0 <= brightness <= 25,
                c <= w,
        ;
    }
    if w <= c {
        assert(25 * w <= mix <= 25 * c) by (nonlinear_arith)
            requires
                mix == c * brightness + w * (25 - brightness),
                0 <= brightness <= 25,
                w <= c,
        ;
    }
}

fn luma_of(sample: ZoneColor) -> (luma: u32)
    ensures
        luma == luma_milli(sample),
        luma <= 255_000,
{
    299 * sample.r as u32 + 587 * sample.g as u32 + 114 * sample.b as u32
}

fn boost(luma: u32) -> (k: u8)
    requires
        luma <= 255_000,
    ensures
        k == boosted(luma as int),
{
    proof {
        lemma_boost_constants();
        lemma_luma_power_fits(luma as int);
        lemma_largest_within_bounds(
            255,
            5,
            1,
            LUMA_SCALE as int,
            FULL_CUBED * pow(luma as int, 7),
        );
    }
    let raised: u128 = raise(luma as u128, 7);
    find_largest_within(255, 5, 1, LUMA_SCALE, FULL_CUBED, raised) as u8
}

fn blend(channel: u8, warm: u8, brightness: u8) -> (mixed: u8)
    requires
        brightness <= BRIGHTNESS_COLOR_THRESH,
    ensures
        mixed == blended(channel, warm, brightness as int),
{
    proof {
        lemma_blended_between(channel, warm, brightness as int);
    }
    let rest: u32 = (BRIGHTNESS_COLOR_THRESH - brightness) as u32;
    assert(channel * brightness <= 255 * 25 && warm * rest <= 255 * 25) by (nonlinear_arith)
        requires
            channel <= 255,
            warm <= 255,
            brightness <= 25,
            rest <= 25,
    ;
    ((channel as u32 * brightness as u32 + warm as u32 * rest) / (BRIGHTNESS_COLOR_THRESH
        as u32)) as u8
}

impl From<ZoneColor> for MessageColor {
    /// Derives what is sent for a sample: the luma is boosted and kept within
    /// `MIN_BRIGHTNESS..=255`, and a dark sample is drawn towards warm white.
    fn from(sample: ZoneColor) -> (color: MessageColor)
        ensures
            color == MessageColor::derived(sample),
    {
        let raw = boost(luma_of(sample));
        let brightness: u8 = if raw < MIN_BRIGHTNESS {
            MIN_BRIGHTNESS
        } else {
            raw
        };
        if brightness < BRIGHTNESS_COLOR_THRESH {
            MessageColor::new(
                blend(sample.r, WARM_RED, brightness),
                blend(sample.g, WARM_GREEN, brightness),
                blend(sample.b, WARM_BLUE, brightness),
                brightness,
            )
        } else {
            MessageColor::new(sample.r, sample.g, sample.b, brightness)
        }
    }
}

impl FromSpecImpl<ZoneColor> for MessageColor {
    open spec fn obeys_from_spec() -> bool {
        true
    }

    open spec fn from_spec(sample: ZoneColor) -> MessageColor {
        MessageColor::derived(sample)
    }
}

/// What is published to a light: where, and with which colour, brightness
/// and fade. The transition is in milliseconds.
#[derive(Clone, Debug)]
pub struct LightCommand {
    pub topic: String,
    pub r: u8,
    pub g: u8,
    pub b: u8,
    pub brightness: u8,
    pub transition_ms: u32,
}

/// A command as contracts speak of it: the topic as a sequence of characters.
pub struct LightCommandView {
    pub topic: Seq<char>,
    pub r: u8,
    pub g: u8,
    pub b: u8,
    pub brightness: u8,
    pub transition_ms: u32,
}

impl View for LightCommand {
    type V = LightCommandView;

    open spec fn view(&self) -> LightCommandView {
        LightCommandView {
            topic: self.topic@,
            r: self.r,
            g: self.g,
            b: self.b,
            brightness: self.brightness,
            transition_ms: self.transition_ms,
        }
    }
}

/// Turns colours into commands for one light.
#[derive(Clone, Debug)]
pub struct LightController {
    pub config: LightConfig,
}

/// The topic on which a light named `name` takes commands.
pub open spec fn topic_of(name: Seq<char>) -> Seq<char> {
    "zigbee2mqtt/"@ + name + "/set"@
}

/// A brightness under a scale in thousandths, rounded down and capped at 255.
pub open spec fn scaled_brightness(scale: u32, brightness: u8) -> int {
    if scale * brightness / 1000 > 255 {
        255
    } else {
        scale * brightness / 1000
    }
}

impl LightController {
    /// The command that sets the light to `color` with a fade of `transition_ms`.
    pub open spec fn command_for(self, color: MessageColor, transition_ms: u32) -> LightCommandView {
        LightCommandView {
            topic: topic_of(self.config.light_name@),
            r: color.r,
            g: color.g,
            b: color.b,
            brightness: scaled_brightness(self.config.brightness, color.brightness) as u8,
            transition_ms,
        }
    }

    pub fn new(config: LightConfig) -> (controller: Self)
        ensures
            controller.config == config,
    {
        LightController { config }
    }

    pub fn get_light_name(&self) -> (name: String)
        ensures
            name@ == self.config.light_name@,
    {
        self.config.light_name.clone()
    }

    /// The topic of the light. Every service is addressed the same way.
    pub fn get_topic(&self) -> (topic: String)
        ensures
            topic@ == topic_of(self.config.light_name@),
    {
        let mut topic = String::from_str("zigbee2mqtt/");
        topic.append(self.config.light_name.as_str());
        topic.append("/set");
        topic
    }

    /// The brightness sent for `color` under the light's own scale.
    pub fn brightness_for(&self, color: &MessageColor) -> (brightness: u8)
        ensures
            brightness == scaled_brightness(self.config.brightness, color.brightness),
    {
        let scale: u64 = self.config.brightness as u64;
        let raw: u64 = color.brightness as u64;
        assert(scale * raw <= 0xffff_ffff * 255) by (nonlinear_arith)
            requires
                scale <= 0xffff_ffff,
                raw <= 255,
        ;
        let scaled: u64 = scale * raw / 1000;
        if scaled > 255 {
            255
        } else {
            scaled as u8
        }
    }

    /// The command that sets the light to `color`, fading over `transition`
    /// milliseconds, or at once where none is given.
    pub fn set_light(&self, color: MessageColor, transition: Option<u32>) -> (command:
        LightCommand)
        ensures
            command@ == self.command_for(
                color,
                match transition {
                    Some(t) => t,
                    None => 0,
                },
            ),
    {
        let transition_ms: u32 = match transition {
            Some(t) => t,
            None => 0,
        };
        LightCommand {
            topic: self.get_topic(),
            r: color.r,
            g: color.g,
            b: color.b,
            brightness: self.brightness_for(&color),
            transition_ms,
        }
    }
}

} // verus!
