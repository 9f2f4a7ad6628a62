//! The container runtime in use, the argument vectors of each operation, and
//! how the runtime's exit statuses become results.
use vstd::prelude::*;
use crate::error::PodmanError;
use crate::listing::{listing_of, parse_listing};
use crate::mc::Container;
use crate::text::concat;

verus! {

/// A supported container runtime.
#[derive(Debug, Clone, Copy, PartialEq, Eq)]
pub enum Runtime {
    Podman,
    Docker,
}

/// The executable of a runtime.
pub open spec fn binary_of(rt: Runtime) -> Seq<char> {
    match rt {
        Runtime::Podman => "podman"@,
        Runtime::Docker => "docker"@,
    }
}

impl Runtime {
    /// The name of the runtime's executable.
    pub fn binary(&self) -> (r: String)
        ensures
            r@ == binary_of(*self),
    {
        match self {
            Runtime::Podman => String::from_str("podman"),
            Runtime::Docker => String::from_str("docker"),
        }
    }
}

/// How a finished runtime process ended.
#[derive(Debug, Clone)]
pub struct Outcome {
    /// Whether it exited with status zero.
    pub success: bool,
    /// Its standard-error text.
    pub stderr: String,
}

/// The arguments of `create`.
pub open spec fn create_args_of(
    prefix: Seq<char>,
    image: Seq<char>,
    name: Seq<char>,
    mode: Seq<char>,
    level_type: Seq<char>,
    heap: Seq<char>,
) -> Seq<Seq<char>> {
    seq![
        "run"@,
        "-d"@,
        "-p"@,
        "25565"@,
        "--restart"@,
        "unless-stopped"@,
        "-e"@,
        "MODE="@ + mode,
        "-e"@,
        "LEVEL_TYPE="@ + level_type,
        "-e"@,
        "MEMORY="@ + heap,
        "-l"@,
        "game_mode="@ + mode,
        "-l"@,
        "level_type="@ + level_type,
        "-e"@,
        "EULA=TRUE"@,
        "--name"@,
        prefix + name,
        "-v"@,
        prefix + name + ":/data"@,
        image,
    ]
}

/// The views of a vector of strings.
pub open spec fn texts(v: Seq<String>) -> Seq<Seq<char>> {
    v.map_values(|s: String| s@)
}

/// The first outcome that is not a success, where there is one.
pub open spec fn is_first_failure(os: Seq<Outcome>, k: int) -> bool {
    0 <= k < os.len() && !os[k].success && forall|j: int| 0 <= j < k ==> os[j].success
}

/// Runtime, naming prefix and image shared by every operation.
#[derive(Debug, Clone)]
pub struct Instance {
    /// Executable of the runtime.
    pub runtime: String,
    /// Prefix of the names of managed containers and volumes.
    pub prefix: String,
    /// Image that servers are created from.
    pub image: String,
}

impl Instance {
    /// The configuration for `runtime`, with prefix `mcli-` and the image
    /// `itzg/minecraft-server:latest`.
    pub fn new(runtime: Runtime) -> (r: Instance)
        ensures
            r.runtime@ == binary_of(runtime),
            r.prefix@ == "mcli-"@,
            r.image@ == "itzg/minecraft-server:latest"@,
    {
        Instance {
            runtime: runtime.binary(),
            prefix: String::from_str("mcli-"),
            image: String::from_str("itzg/minecraft-server:latest"),
        }
    }

    /// The runtime's name of the container and volume of server `name`.
    pub fn managed_name(&self, name: &str) -> (r: String)
        ensures
            r@ == self.prefix@ + name@,
    {
        concat(self.prefix.as_str(), name)
    }

    /// Arguments that create server `name`, detached, with the game port
    /// published, its settings as environment and labels, and a volume of its
    /// own at `/data`.
    pub fn create_args(&self, name: &str, mode: &str, level_type: &str, heap: &str) -> (r: Vec<
        String,
    >)
        ensures
            texts(r@) == create_args_of(
                self.prefix@,
                self.image@,
                name@,
                mode@,
                level_type@,
                heap@,
            ),
    {
        let full = self.managed_name(name);
        let volume = concat(full.as_str(), ":/data");
        let r = vec![
            String::from_str("run"),
            String::from_str("-d"),
            String::from_str("-p"),
            String::from_str("25565"),
            String::from_str("--restart"),
            String::from_str("unless-stopped"),
            String::from_str("-e"),
            concat("MODE=", mode),
            String::from_str("-e"),
            concat("LEVEL_TYPE=", level_type),
            String::from_str("-e"),
            concat("MEMORY=", heap),
            String::from_str("-l"),
            concat("game_mode=", mode),
            String::from_str("-l"),
            concat("level_type=", level_type),
            String::from_str("-e"),
            String::from_str("EULA=TRUE"),
            String::from_str("--name"),
            full,
            String::from_str("-v"),
            volume,
            self.image.clone(),
        ];
        assert(texts(r@) =~= create_args_of(
            self.prefix@,
            self.image@,
            name@,
            mode@,
            level_type@,
            heap@,
        ));
        r
    }

    /// Arguments of a verb that takes only the container of server `name`.
    fn verb_args(&self, verb: &str, name: &str) -> (r: Vec<String>)
        ensures
            texts(r@) == seq![verb@, self.prefix@ + name@],
    {
        let r = vec![String::from_str(verb), self.managed_name(name)];
        assert(texts(r@) =~= seq![verb@, self.prefix@ + name@]);
        r
    }

    /// Arguments that start server `name`.
    pub fn start_args(&self, name: &str) -> (r: Vec<String>)
        ensures
            texts(r@) == seq!["start"@, self.prefix@ + name@],
    {
        self.verb_args("start", name)
    }

    /// Arguments that stop server `name`.
    pub fn stop_args(&self, name: &str) -> (r: Vec<String>)
        ensures
            texts(r@) == seq!["stop"@, self.prefix@ + name@],
    {
        self.verb_args("stop", name)
    }

    /// Arguments that restart server `name`.
    pub fn restart_args(&self, name: &str) -> (r: Vec<String>)
        ensures
            texts(r@) == seq!["restart"@, self.prefix@ + name@],
    {
        self.verb_args("restart", name)
    }

    /// The three commands that remove server `name`, in the order they run:
    /// stop its container, remove the container, remove its volume.
    pub fn remove_args(&self, name: &str) -> (r: Vec<Vec<String>>)
        ensures
            r@.len() == 3,
            texts(r@[0]@) == seq!["stop"@, self.prefix@ + name@],
            texts(r@[1]@) == seq!["rm"@, self.prefix@ + name@],
            texts(r@[2]@) == seq!["volume"@, "remove"@, self.prefix@ + name@],
    {
        let volume = vec![
            String::from_str("volume"),
            String::from_str("remove"),
            self.managed_name(name),
        ];
        assert(texts(volume@) =~= seq!["volume"@, "remove"@, self.prefix@ + name@]);
        vec![self.verb_args("stop", name), self.verb_args("rm", name), volume]
    }

    /// Arguments of an interactive rcon console in server `name`.
    pub fn rcon_args(&self, name: &str) -> (r: Vec<String>)
        ensures
            texts(r@) == seq!["exec"@, "-it"@, self.prefix@ + name@, "rcon-cli"@],
    {
        let r = vec![
            String::from_str("exec"),
            String::from_str("-it"),
            self.managed_name(name),
            String::from_str("rcon-cli"),
        ];
        assert(texts(r@) =~= seq!["exec"@, "-it"@, self.prefix@ + name@, "rcon-cli"@]);
        r
    }

    /// Arguments that follow the log of server `name`.
    pub fn logs_args(&self, name: &str) -> (r: Vec<String>)
        ensures
            texts(r@) == seq!["logs"@, "-f"@, self.prefix@ + name@],
    {
        let r = vec![String::from_str("logs"), String::from_str("-f"), self.managed_name(name)];
        assert(texts(r@) =~= seq!["logs"@, "-f"@, self.prefix@ + name@]);
        r
    }

    /// Arguments that list all containers, stopped ones included, one per line
    /// with the columns name, ports, status, creation time, level type label
    /// and game mode label separated by `;`.
    pub fn list_args(&self) -> (r: Vec<String>)
        ensures
            texts(r@) == seq![
                "ps"@,
                "-a"@,
                "--format"@,
                "table {{.Names}};{{.Ports}};{{.Status}};{{.CreatedAt}};{{.Labels.level_type}};{{.Labels.game_mode}}"@,
            ],
    {
        let r = vec![
            String::from_str("ps"),
            String::from_str("-a"),
            String::from_str("--format"),
            String::from_str(
                "table {{.Names}};{{.Ports}};{{.Status}};{{.CreatedAt}};{{.Labels.level_type}};{{.Labels.game_mode}}",
            ),
        ];
        assert(texts(r@) =~= seq![
            "ps"@,
            "-a"@,
            "--format"@,
            "table {{.Names}};{{.Ports}};{{.Status}};{{.CreatedAt}};{{.Labels.level_type}};{{.Labels.game_mode}}"@,
        ]);
        r
    }

    /// The records of a listing output of this instance's managed containers.
    pub fn parse_listing(&self, stdout: &Vec<u8>) -> (r: Vec<Container>)
        ensures
            r@.map_values(|c: Container| c@) == listing_of(self.prefix@, stdout@),
    {
        parse_listing(self.prefix.as_str(), stdout)
    }

    /// The result of a listing run: its records where the runtime succeeded,
    /// else its standard-error text.
    pub fn list_result(&self, outcome: Outcome, stdout: &Vec<u8>) -> (r: Result<
        Vec<Container>,
        PodmanError,
    >)
        ensures
            outcome.success ==> (r matches Ok(v) && v@.map_values(|c: Container| c@) == listing_of(
                self.prefix@,
                stdout@,
            )),
            !outcome.success ==> r == Err::<Vec<Container>, PodmanError>(
                PodmanError::Command(outcome.stderr),
            ),
    {
        if outcome.success {
            Ok(self.parse_listing(stdout))
        } else {
            Err(PodmanError::Command(outcome.stderr))
        }
    }
}

/// The result of a single command on server `name`: the name where the
/// runtime succeeded, else its standard-error text.
pub fn command_result(name: &str, outcome: Outcome) -> (r: Result<String, PodmanError>)
    ensures
        outcome.success ==> (r matches Ok(s) && s@ == name@),
        !outcome.success ==> r == Err::<String, PodmanError>(PodmanError::Command(outcome.stderr)),
{
    if outcome.success {
        Ok(String::from_str(name))
    } else {
        Err(PodmanError::Command(outcome.stderr))
    }
}

/// The result of the commands that remove server `name`, all of which have
/// run: the name where every one succeeded, else the standard-error text of
/// the first that failed.
pub fn remove_result(name: &str, outcomes: Vec<Outcome>) -> (r: Result<String, PodmanError>)
    ensures
        (forall|k: int| 0 <= k < outcomes@.len() ==> #[trigger] outcomes@[k].success) ==> (r matches Ok(
            s,
        ) && s@ == name@),
        forall|k: int| #[trigger]
            is_first_failure(outcomes@, k) ==> r == Err::<String, PodmanError>(
                PodmanError::Command(outcomes@[k].stderr),
            ),
{
    let mut i: usize = 0;
    while i < outcomes.len()
        invariant
            i <= outcomes@.len(),
            forall|j: int| 0 <= j < i ==> #[trigger] outcomes@[j].success,
        decreases outcomes@.len() - i,
    {
        if !outcomes[i].success {
            let stderr = outcomes[i].stderr.clone();
            assert forall|k: int| #[trigger] is_first_failure(outcomes@, k) implies k == i by {
                if k < i {
                    assert(outcomes@[k].success);
                } else if k > i {
                    assert(outcomes@[i as int].success);
                }
            }
            return Err(PodmanError::Command(stderr));
        }
        i = i + 1;
    }
    Ok(String::from_str(name))
}

} // verus!
