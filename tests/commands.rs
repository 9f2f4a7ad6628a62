use mcli::{command_result, remove_result, Instance, Outcome, PodmanError, Runtime};

fn ok() -> Outcome {
    Outcome { success: true, stderr: String::new() }
}

fn failed(text: &str) -> Outcome {
    Outcome { success: false, stderr: text.to_string() }
}

#[test]
fn instance_configuration() {
    let podman = Instance::new(Runtime::Podman);
    assert_eq!(podman.runtime, "podman");
    assert_eq!(podman.prefix, "mcli-");
    assert_eq!(podman.image, "itzg/minecraft-server:latest");
    assert_eq!(Instance::new(Runtime::Docker).runtime, "docker");
}

#[test]
fn scenario_create_arguments() {
    let args = Instance::new(Runtime::Podman).create_args("box", "creative", "flat", "2G");
    for want in ["MODE=creative", "LEVEL_TYPE=flat", "MEMORY=2G", "EULA=TRUE", "mcli-box", "mcli-box:/data"] {
        assert!(args.iter().any(|a| a == want), "{}", want);
    }
    let expected = vec![
        "run", "-d", "-p", "25565", "--restart", "unless-stopped", "-e", "MODE=creative", "-e",
        "LEVEL_TYPE=flat", "-e", "MEMORY=2G", "-l", "game_mode=creative", "-l",
        "level_type=flat", "-e", "EULA=TRUE", "--name", "mcli-box", "-v", "mcli-box:/data",
        "itzg/minecraft-server:latest",
    ];
    assert_eq!(args, expected);
}

#[test]
fn scenario_remove_reports_first_failure() {
    let instance = Instance::new(Runtime::Docker);
    let steps = instance.remove_args("gone");
    assert_eq!(steps.len(), 3);
    assert_eq!(steps[0], vec!["stop", "mcli-gone"]);
    assert_eq!(steps[1], vec!["rm", "mcli-gone"]);
    assert_eq!(steps[2], vec!["volume", "remove", "mcli-gone"]);
    let r = remove_result("gone", vec![failed("no such container"), failed("rm failed"), ok()]);
    assert_eq!(r, Err(PodmanError::Command("no such container".to_string())));
}

#[test]
fn remove_reports_later_failure() {
    let r = remove_result("x", vec![ok(), ok(), failed("volume in use")]);
    assert_eq!(r, Err(PodmanError::Command("volume in use".to_string())));
}

#[test]
fn remove_succeeds_when_all_succeed() {
    assert_eq!(remove_result("x", vec![ok(), ok(), ok()]), Ok("x".to_string()));
}

#[test]
fn single_verb_arguments() {
    let instance = Instance::new(Runtime::Podman);
    assert_eq!(instance.start_args("s"), vec!["start", "mcli-s"]);
    assert_eq!(instance.stop_args("s"), vec!["stop", "mcli-s"]);
    assert_eq!(instance.restart_args("s"), vec!["restart", "mcli-s"]);
    assert_eq!(instance.rcon_args("s"), vec!["exec", "-it", "mcli-s", "rcon-cli"]);
    assert_eq!(instance.logs_args("s"), vec!["logs", "-f", "mcli-s"]);
}

#[test]
fn list_arguments() {
    let args = Instance::new(Runtime::Podman).list_args();
    assert_eq!(
        args,
        vec![
            "ps",
            "-a",
            "--format",
            "table {{.Names}};{{.Ports}};{{.Status}};{{.CreatedAt}};{{.Labels.level_type}};{{.Labels.game_mode}}",
        ]
    );
}

#[test]
fn command_result_maps_exit_status() {
    assert_eq!(command_result("s", ok()), Ok("s".to_string()));
    assert_eq!(
        command_result("s", failed("boom")),
        Err(PodmanError::Command("boom".to_string()))
    );
}

#[test]
fn error_message_text() {
    assert_eq!(PodmanError::Command("a".to_string()).message(), "a");
    assert_eq!(PodmanError::Spawn("b".to_string()).message(), "b");
}
