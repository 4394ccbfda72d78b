use zync::config::{extract_zones_and_lights, ConfigError};
use zync::lights::{LightConfig, LightService};
use zync::zone::ZoneConfig;

fn light(name: &str, brightness: u32) -> LightConfig {
    LightConfig { service: LightService::Zigbee2MQTT, light_name: name.to_string(), brightness }
}

fn zone(x: u32, name: &str) -> ZoneConfig {
    ZoneConfig { x, y: 1, width: 2, height: 3, light_name: name.to_string() }
}

fn unknown(result: Result<Vec<zync::sync::ZonePair>, ConfigError>) -> String {
    match result {
        Ok(_) => panic!("paired"),
        Err(ConfigError::UnknownLight(name)) => name,
    }
}

#[test]
fn every_zone_gets_its_light() {
    let pairs = extract_zones_and_lights(
        vec![light("a", 100), light("b", 200), light("c", 300)],
        vec![zone(0, "c"), zone(1, "a")],
    )
    .expect("both lights are configured");
    assert_eq!(pairs.len(), 2);
    assert_eq!(pairs[0].zone.config.x, 0);
    assert_eq!(pairs[0].zone.get_light_name(), "c");
    assert_eq!(pairs[0].zone_light.get_light_name(), "c");
    assert_eq!(pairs[0].zone_light.config.brightness, 300);
    assert!(pairs[0].previous_sample.is_none());
    assert_eq!(pairs[1].zone.config.x, 1);
    assert_eq!(pairs[1].zone_light.get_light_name(), "a");
    assert_eq!(pairs[1].zone_light.config.brightness, 100);
    assert!(pairs[1].previous_sample.is_none());
}

#[test]
fn the_zone_is_carried_over_whole() {
    let pairs = extract_zones_and_lights(vec![light("a", 1)], vec![zone(9, "a")]).expect("paired");
    let config = &pairs[0].zone.config;
    assert_eq!((config.x, config.y, config.width, config.height), (9, 1, 2, 3));
}

#[test]
fn no_zones_need_no_lights() {
    assert_eq!(extract_zones_and_lights(Vec::new(), Vec::new()).expect("nothing to pair").len(), 0);
    assert_eq!(
        extract_zones_and_lights(vec![light("a", 1)], Vec::new()).expect("nothing to pair").len(),
        0
    );
}

#[test]
fn a_zone_without_its_light_is_an_error() {
    let result = extract_zones_and_lights(vec![light("a", 1)], vec![zone(0, "a"), zone(1, "z")]);
    assert_eq!(unknown(result), "z");
    assert_eq!(unknown(extract_zones_and_lights(Vec::new(), vec![zone(0, "a")])), "a");
}

#[test]
fn a_light_serves_one_zone_only() {
    let result = extract_zones_and_lights(
        vec![light("a", 1), light("b", 2)],
        vec![zone(0, "a"), zone(1, "b"), zone(2, "a")],
    );
    assert_eq!(unknown(result), "a");
}

#[test]
fn the_first_zone_in_error_is_named() {
    let result = extract_zones_and_lights(
        vec![light("a", 1)],
        vec![zone(0, "x"), zone(1, "y"), zone(2, "a")],
    );
    assert_eq!(unknown(result), "x");
}

#[test]
fn of_two_lights_with_one_name_the_later_is_used() {
    let pairs = extract_zones_and_lights(
        vec![light("a", 100), light("b", 5), light("a", 900)],
        vec![zone(0, "a")],
    )
    .expect("paired");
    assert_eq!(pairs[0].zone_light.config.brightness, 900);
}
