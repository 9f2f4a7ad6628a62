use mcli::{capitalize_first, extract_port, parse_listing, parse_listing_row, split_fields};
use mcli::{Container, Instance, Outcome, PodmanError, Runtime};
use regex::Regex;

fn parse_one(line: &str) -> Option<Container> {
    parse_listing_row("mcli-", line)
}

fn listing(text: &str) -> Vec<Container> {
    let instance = Instance::new(Runtime::Podman);
    instance.parse_listing(&text.as_bytes().to_vec())
}

#[test]
fn scenario_running_server() {
    let c = parse_one(
        "mcli-survival1;0.0.0.0:25566->25565/tcp;Up 3 hours;2024-01-01T00:00:00Z;flat;creative",
    )
    .unwrap();
    assert_eq!(c.get("name"), "survival1");
    assert_eq!(c.get("port"), "25566");
    assert_eq!(c.get("status"), "Up 3 hours");
    assert_eq!(c.get("created"), "2024-01-01T00:00:00Z");
    assert_eq!(c.get("level_type"), "Flat");
    assert_eq!(c.get("game_mode"), "Creative");
}

#[test]
fn scenario_foreign_container() {
    assert!(parse_one("other-container;;Exited (0) 2 days ago;2023-01-01T00:00:00Z;;").is_none());
    assert!(listing("other-container;;Exited (0) 2 days ago;2023-01-01T00:00:00Z;;\n").is_empty());
}

#[test]
fn scenario_stopped_server() {
    let c = parse_one("mcli-stopped1;;Exited (137);2024-02-01T00:00:00Z;default;survival").unwrap();
    assert_eq!(c.get("name"), "stopped1");
    assert_eq!(c.get("port"), "");
    assert_eq!(c.get("status"), "Exited (137)");
    assert_eq!(c.get("level_type"), "Default");
    assert_eq!(c.get("game_mode"), "Survival");
}

#[test]
fn unmanaged_lines_are_dropped() {
    let text = "NAMES;PORTS;STATUS;CREATED AT;LEVEL_TYPE;GAME_MODE\n\
                web;0.0.0.0:80->80/tcp;Up 1 hour;2024-01-01;;\n\
                xmcli-a;;Up;2024;flat;creative\n\
                mcli-a;;Up;2024;flat;creative\n";
    let records = listing(text);
    assert_eq!(records.len(), 1);
    assert_eq!(records[0].get("name"), "a");
}

#[test]
fn managed_names_lose_the_prefix() {
    for x in ["a", "Server_1", "my-world", "Z9"] {
        let line = format!("mcli-{};;Up;2024;;", x);
        assert_eq!(parse_one(&line).unwrap().get("name"), x);
    }
}

#[test]
fn prefix_round_trip() {
    let instance = Instance::new(Runtime::Docker);
    let raw = "mcli-box";
    let c = parse_one(&format!("{};;;;;", raw)).unwrap();
    assert_eq!(instance.managed_name(c.get("name")), raw);
}

#[test]
fn port_of_single_mapping() {
    assert_eq!(extract_port("0.0.0.0:25566->25565/tcp"), "25566");
    assert_eq!(extract_port("127.0.0.1:8->25565/tcp"), "8");
    assert_eq!(extract_port("10.20.30.40:49153->25565/tcp"), "49153");
}

#[test]
fn port_of_leftmost_mapping() {
    assert_eq!(
        extract_port("0.0.0.0:25570->25565/tcp, :::25570->25565/tcp"),
        "25570"
    );
    assert_eq!(
        extract_port("0.0.0.0:8080->80/tcp, 0.0.0.0:25571->25565/tcp"),
        "25571"
    );
}

#[test]
fn port_without_mapping_is_empty() {
    assert_eq!(extract_port(""), "");
    assert_eq!(extract_port("0.0.0.0:8080->80/tcp"), "");
    assert_eq!(extract_port(":::25566->25565/tcp"), "");
    assert_eq!(extract_port("0.0.0.0:25566->25565/udp"), "");
    assert_eq!(extract_port("0.0.0:25566->25565/tcp"), "");
}

#[test]
fn port_agrees_with_pattern() {
    let re = Regex::new(r"(?:\d+[\.:]){4}(\d+)->25565/tcp").unwrap();
    let cases = [
        "0.0.0.0:25566->25565/tcp",
        "1.2.3.4.5:6->25565/tcp",
        "0.0.0.0:8080->80/tcp, 0.0.0.0:25571->25565/tcp",
        "12.34.56.78:9->25565/tcp, :::9->25565/tcp",
        "nothing here",
        "",
    ];
    for field in cases {
        let expected = re
            .captures(field)
            .map(|c| c.get(1).unwrap().as_str().to_string())
            .unwrap_or_default();
        assert_eq!(extract_port(field), expected, "{}", field);
    }
}

#[test]
fn listing_twice_is_identical() {
    let text = "mcli-a;0.0.0.0:25566->25565/tcp;Up;2024;flat;creative\nmcli-b;;Exited;2023;;\n";
    let first = listing(text);
    let second = listing(text);
    assert_eq!(first.len(), second.len());
    for (x, y) in first.iter().zip(second.iter()) {
        for p in ["name", "port", "status", "created", "level_type", "game_mode"] {
            assert_eq!(x.get(p), y.get(p));
        }
    }
}

#[test]
fn listing_keeps_order_and_strips_line_ends() {
    let text = "mcli-b;;Up;1;;\r\nother;;;;;\nmcli-a;;Up;2;;\r\nmcli-c;;Up;3;;";
    let records = listing(text);
    let names: Vec<&str> = records.iter().map(|c| c.get("name")).collect();
    assert_eq!(names, vec!["b", "a", "c"]);
    assert_eq!(records[0].get("game_mode"), "");
}

#[test]
fn listing_drops_lines_that_are_not_text() {
    let mut bytes = b"mcli-a;;Up;1;;\n".to_vec();
    bytes.extend_from_slice(&[b'm', b'c', b'l', b'i', b'-', 0xff, b'\n']);
    bytes.extend_from_slice(b"mcli-b;;Up;2;;\n");
    let instance = Instance::new(Runtime::Podman);
    let records = instance.parse_listing(&bytes);
    assert_eq!(records.len(), 2);
    assert_eq!(records[1].get("name"), "b");
}

#[test]
fn short_rows_get_empty_columns() {
    let c = parse_one("mcli-x").unwrap();
    assert_eq!(c.get("name"), "x");
    assert_eq!(c.get("port"), "");
    assert_eq!(c.get("status"), "");
    assert_eq!(c.get("game_mode"), "");
}

#[test]
fn split_fields_cuts_at_every_semicolon() {
    assert_eq!(split_fields("a;;b;"), vec!["a", "", "b", ""]);
    assert_eq!(split_fields(""), vec![""]);
}

#[test]
fn capitalize_first_changes_only_the_first_character() {
    assert_eq!(capitalize_first("flat"), "Flat");
    assert_eq!(capitalize_first("creative mode"), "Creative mode");
    assert_eq!(capitalize_first("ßx"), "SSx");
    assert_eq!(capitalize_first("Default"), "Default");
    assert_eq!(capitalize_first(""), "");
}

#[test]
fn container_new_and_get() {
    let c = Container::new(vec!["n", "1", "Up", "today", "amplified", "adventure"]);
    assert_eq!(c.get("name"), "n");
    assert_eq!(c.get("port"), "1");
    assert_eq!(c.get("created"), "today");
    assert_eq!(c.get("level_type"), "Amplified");
    assert_eq!(c.get("game_mode"), "Adventure");
    assert_eq!(c.get("colour"), "");
}

#[test]
fn list_result_success_and_failure() {
    let instance = Instance::new(Runtime::Podman);
    let out = b"mcli-a;;Up;1;;\n".to_vec();
    let ok = instance
        .list_result(Outcome { success: true, stderr: String::new() }, &out)
        .unwrap();
    assert_eq!(ok.len(), 1);
    let err = instance
        .list_result(Outcome { success: false, stderr: "denied".to_string() }, &out)
        .unwrap_err();
    assert_eq!(err, PodmanError::Command("denied".to_string()));
}
