//! Bringing the configured zones and lights together.

use crate::lights::{LightConfig, LightController};
use crate::sync::ZonePair;
use crate::zone::{ZoneConfig, ZoneSampler};
use vstd::prelude::*;

verus! {

/// Why the configuration cannot be used.
#[derive(Debug)]
pub enum ConfigError {
    /// A zone names a light that is not configured, or that an earlier zone
    /// has taken. It holds the name.
    UnknownLight(String),
}

/// The last light before `upto` that is called `name`, or -1 where there is
/// none. Of two lights with one name, the later one counts.
pub open spec fn last_light(lights: Seq<LightConfig>, name: Seq<char>, upto: nat) -> int
    decreases upto,
{
    if upto == 0 {
        -1
    } else if lights[upto - 1].light_name@ == name {
        upto - 1
    } else {
        last_light(lights, name, (upto - 1) as nat)
    }
}

/// Whether a zone before `index` names the same light as the zone at `index`.
pub open spec fn taken_before(zones: Seq<ZoneConfig>, index: int) -> bool {
    exists|k: int| 0 <= k < index && #[trigger] zones[k].light_name@ == zones[index].light_name@
}

/// Whether the zone at `index` gets a light: its light is configured, and no
/// earlier zone has taken it.
pub open spec fn pairable(lights: Seq<LightConfig>, zones: Seq<ZoneConfig>, index: int) -> bool {
    last_light(lights, zones[index].light_name@, lights.len()) >= 0 && !taken_before(zones, index)
}

/// The first zone at or after `from` that gets no light, or the number of
/// zones where every one of them gets its light.
pub open spec fn first_unpaired(lights: Seq<LightConfig>, zones: Seq<ZoneConfig>, from: nat) -> nat
    decreases zones.len() - from,
{
    if from >= zones.len() {
        zones.len()
    } else if !pairable(lights, zones, from as int) {
        from
    } else {
        first_unpaired(lights, zones, from + 1)
    }
}

fn find_light(lights: &Vec<LightConfig>, name: &String) -> (found: Option<usize>)
    ensures
        match found {
            Some(index) => index == last_light(lights@, name@, lights@.len()) && index
                < lights@.len(),
            None => last_light(lights@, name@, lights@.len()) == -1,
        },
{
    let mut upto: usize = lights.len();
    while upto > 0
        invariant
            upto <= lights@.len(),
            last_light(lights@, name@, lights@.len()) == last_light(lights@, name@, upto as nat),
        decreases upto,
    {
        upto = upto - 1;
        if lights[upto].light_name == *name {
            return Some(upto);
        }
    }
    None
}

fn taken(zones: &Vec<ZoneConfig>, index: usize) -> (found: bool)
    requires
        index < zones@.len(),
    ensures
        found == taken_before(zones@, index as int),
{
    let mut k: usize = 0;
    while k < index
        invariant
            k <= index < zones@.len(),
            forall|j: int| 0 <= j < k ==> #[trigger] zones@[j].light_name@ != zones@[index as int].light_name@,
        decreases index - k,
    {
        if zones[k].light_name == zones[index].light_name {
            return true;
        }
        k = k + 1;
    }
    false
}

/// Gives every zone its light, in the order of the zones. Every light serves
/// one zone at most; of two lights with one name the later one is used. The
/// first zone whose light is missing or taken ends it with an error.
pub fn extract_zones_and_lights(lights: Vec<LightConfig>, zones: Vec<ZoneConfig>) -> (paired:
    Result<Vec<ZonePair>, ConfigError>)
    ensures
        match paired {
            Ok(pairs) => first_unpaired(lights@, zones@, 0) == zones@.len() && pairs@.len()
                == zones@.len() && forall|i: int|
                0 <= i < zones@.len() ==> (#[trigger] pairs@[i]).zone.config == zones@[i]
                    && pairs@[i].zone_light.config == lights@[last_light(
                    lights@,
                    zones@[i].light_name@,
                    lights@.len(),
                )] && pairs@[i].previous_sample is None,
            Err(ConfigError::UnknownLight(name)) => first_unpaired(lights@, zones@, 0)
                < zones@.len() && name@ == zones@[first_unpaired(
                lights@,
                zones@,
                0,
            ) as int].light_name@,
        },
{
    let mut pairs: Vec<ZonePair> = Vec::new();
    let mut index: usize = 0;
    while index < zones.len()
        invariant
            index <= zones@.len(),
            pairs@.len() == index,
            first_unpaired(lights@, zones@, 0) == first_unpaired(lights@, zones@, index as nat),
            forall|i: int|
                0 <= i < index ==> (#[trigger] pairs@[i]).zone.config == zones@[i]
                    && pairs@[i].zone_light.config == lights@[last_light(
                    lights@,
                    zones@[i].light_name@,
                    lights@.len(),
                )] && pairs@[i].previous_sample is None,
        decreases zones@.len() - index,
    {
        let zone = &zones[index];
        let found = find_light(&lights, &zone.light_name);
        let spent = taken(&zones, index);
        match found {
            Some(at) if !spent => {
                let light = &lights[at];
                let pair = ZonePair {
                    zone: ZoneSampler {
                        config: ZoneConfig {
                            x: zone.x,
                            y: zone.y,
                            width: zone.width,
                            height: zone.height,
                            light_name: zone.light_name.clone(),
                        },
                    },
                    zone_light: LightController::new(
                        LightConfig {
                            service: light.service,
                            light_name: light.light_name.clone(),
                            brightness: light.brightness,
                        },
                    ),
                    previous_sample: None,
                };
                pairs.push(pair);
            },
            _ => {
                return Err(ConfigError::UnknownLight(zone.light_name.clone()));
            },
        }
        index = index + 1;
    }
    Ok(pairs)
}

} // verus!
