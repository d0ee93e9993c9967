//! The container runtime gateway. Every interaction with the runtime is a
//! process invocation whose argument list is built here and whose output is
//! interpreted here; issuing the invocations themselves is left to the caller
//! at the process boundary. The one impure ingredient of a backup plan, the
//! timestamp, comes from the clock through a trusted wrapper.
use vstd::prelude::*;

use crate::config::DatabaseConfig;
use crate::error::BackupError;
use crate::text::contains_seq;
use crate::text::contains_substring;

verus! {

use vstd::string::StrSliceExecFns;
use vstd::string::StringExecFns;

/// Stateless facade over the container runtime: it owns nothing and every
/// operation is a fresh external invocation.
#[derive(Debug)]
pub struct DockerManager;

/// The artifact filename for a subject, a timestamp and a format:
/// `backup_<subject>_<timestamp>.<format>`.
pub open spec fn spec_backup_filename(
    database_name: Seq<char>,
    timestamp: Seq<char>,
    backup_format: Seq<char>,
) -> Seq<char> {
    "backup_"@ + database_name + "_"@ + timestamp + "."@ + backup_format
}

/// The backup trigger: a POST carrying the secret, the subject and the
/// format, writing its output to `target` inside the container.
pub open spec fn spec_curl_command(
    master_password: Seq<char>,
    database_name: Seq<char>,
    backup_format: Seq<char>,
    url: Seq<char>,
    target: Seq<char>,
) -> Seq<char> {
    "curl -X POST -F 'master_pwd="@ + master_password + "' -F 'name="@ + database_name
        + "' -F 'backup_format="@ + backup_format + "' "@ + url + "/web/database/backup -o "@
        + target
}

/// Builds the artifact filename `backup_<subject>_<timestamp>.<format>`.
pub fn backup_filename(database_name: &str, timestamp: &str, backup_format: &str) -> (r: String)
    ensures
        r@ == spec_backup_filename(database_name@, timestamp@, backup_format@),
{
    "backup_".to_owned().concat(database_name).concat("_").concat(timestamp).concat(".").concat(
        backup_format,
    )
}

/// Joins a directory and a filename with a single separator.
pub fn join_path(dir: &str, filename: &str) -> (r: String)
    ensures
        r@ == dir@ + "/"@ + filename@,
{
    dir.to_owned().concat("/").concat(filename)
}

/// The suffix of `path` after its last `/`; the whole of `path` when it has
/// no `/`.
pub open spec fn last_segment(path: Seq<char>) -> Seq<char>
    decreases path.len(),
{
    if path.len() == 0 {
        path
    } else if path.last() == '/' {
        Seq::empty()
    } else {
        last_segment(path.drop_last()).push(path.last())
    }
}

/// `last_segment` is the suffix that starts right after the last `/`.
proof fn lemma_last_segment_at(path: Seq<char>, i: int)
    requires
        0 <= i <= path.len(),
        forall|k: int| i <= k < path.len() ==> path[k] != '/',
        i > 0 ==> path[i - 1] == '/',
    ensures
        last_segment(path) == path.skip(i),
    decreases path.len(),
{
    if path.len() == i {
        assert(path.skip(i) =~= Seq::<char>::empty());
        if i > 0 {
            assert(path.last() == '/');
        }
    } else {
        assert(path.last() != '/');
        lemma_last_segment_at(path.drop_last(), i);
        assert(path.skip(i) =~= path.drop_last().skip(i).push(path.last()));
    }
}

/// Derives the host-side destination path for a transfer: the host directory
/// joined with the last path segment of the container-side path.
pub fn host_backup_path(host_dir: &str, container_path: &str) -> (r: String)
    ensures
        r@ == host_dir@ + "/"@ + last_segment(container_path@),
{
    let len: usize = container_path.unicode_len();
    let mut i: usize = len;
    while i > 0 && container_path.get_char(i - 1) != '/'
        invariant
            len == container_path@.len(),
            i <= len,
            forall|k: int| i <= k < len ==> container_path@[k] != '/',
        decreases i,
    {
        i = i - 1;
    }
    proof {
        lemma_last_segment_at(container_path@, i as int);
    }
    let segment = container_path.substring_char(i, len);
    assert(segment@ =~= container_path@.skip(i as int));
    host_dir.to_owned().concat("/").concat(segment)
}

impl DockerManager {
    /// Creates the gateway.
    pub fn new() -> (r: Self) {
        DockerManager
    }

    /// The query that lists running containers whose name matches the given
    /// identifier, printing one name per line.
    pub fn running_query_args(&self, container_name: &str) -> (r: Vec<String>)
        ensures
            r@.len() == 5,
            r@[0]@ == "ps"@,
            r@[1]@ == "--filter"@,
            r@[2]@ == "name="@ + container_name@,
            r@[3]@ == "--format"@,
            r@[4]@ == "{{.Names}}"@,
    {
        let mut args: Vec<String> = Vec::new();
        args.push("ps".to_owned());
        args.push("--filter".to_owned());
        args.push("name=".to_owned().concat(container_name));
        args.push("--format".to_owned());
        args.push("{{.Names}}".to_owned());
        args
    }

    /// The query that lists the names of all running containers.
    pub fn list_query_args(&self) -> (r: Vec<String>)
        ensures
            r@.len() == 3,
            r@[0]@ == "ps"@,
            r@[1]@ == "--format"@,
            r@[2]@ == "{{.Names}}"@,
    {
        let mut args: Vec<String> = Vec::new();
        args.push("ps".to_owned());
        args.push("--format".to_owned());
        args.push("{{.Names}}".to_owned());
        args
    }

    /// Decides, from the output of the matching-containers query, whether the
    /// container is running: its identifier must occur in the output.
    pub fn is_container_listed(&self, container_name: &str, query_output: &str) -> (r: bool)
        ensures
            r == contains_seq(query_output@, container_name@),
    {
        contains_substring(query_output, container_name)
    }

    /// The argument list that runs a shell command inside a container.
    pub fn shell_exec_args(&self, container_name: &str, command: &str) -> (r: Vec<String>)
        ensures
            r@.len() == 5,
            r@[0]@ == "exec"@,
            r@[1]@ == container_name@,
            r@[2]@ == "sh"@,
            r@[3]@ == "-c"@,
            r@[4]@ == command@,
    {
        let mut args: Vec<String> = Vec::new();
        args.push("exec".to_owned());
        args.push(container_name.to_owned());
        args.push("sh".to_owned());
        args.push("-c".to_owned());
        args.push(command.to_owned());
        args
    }

    /// The argument list that copies a file out of a container onto the host.
    pub fn copy_args(
        &self,
        container_name: &str,
        container_path: &str,
        host_path: &str,
    ) -> (r: Vec<String>)
        ensures
            r@.len() == 3,
            r@[0]@ == "cp"@,
            r@[1]@ == container_name@ + ":"@ + container_path@,
            r@[2]@ == host_path@,
    {
        let mut args: Vec<String> = Vec::new();
        args.push("cp".to_owned());
        args.push(container_name.to_owned().concat(":").concat(container_path));
        args.push(host_path.to_owned());
        args
    }

    /// The argument list that removes a file inside a container.
    pub fn remove_args(&self, container_name: &str, container_path: &str) -> (r: Vec<String>)
        ensures
            r@.len() == 5,
            r@[0]@ == "exec"@,
            r@[1]@ == container_name@,
            r@[2]@ == "rm"@,
            r@[3]@ == "-f"@,
            r@[4]@ == container_path@,
    {
        let mut args: Vec<String> = Vec::new();
        args.push("exec".to_owned());
        args.push(container_name.to_owned());
        args.push("rm".to_owned());
        args.push("-f".to_owned());
        args.push(container_path.to_owned());
        args
    }

    /// The error reported when a backup is requested for a container that is
    /// not running.
    pub fn not_running_error(&self, container_name: &str) -> (r: BackupError)
        ensures
            r matches BackupError::Docker(m) && m@ == "Container '"@ + container_name@
                + "' is not running"@,
    {
        BackupError::Docker("Container '".to_owned().concat(container_name).concat(
            "' is not running",
        ))
    }
}

impl Default for DockerManager {
    /// The gateway has no state; the default value is the gateway.
    fn default() -> (r: Self) {
        DockerManager::new()
    }
}

/// The shell command that creates the remote output directory.
pub fn mkdir_command(output_path: &str) -> (r: String)
    ensures
        r@ == "mkdir -p "@ + output_path@,
{
    "mkdir -p ".to_owned().concat(output_path)
}

/// The shell command that checks that the artifact exists after the trigger.
pub fn existence_check_command(container_path: &str) -> (r: String)
    ensures
        r@ == "test -f "@ + container_path@,
{
    "test -f ".to_owned().concat(container_path)
}

/// Builds the backup trigger command for a target, writing to `target`.
pub fn curl_backup_command(config: &DatabaseConfig, target: &str) -> (r: String)
    ensures
        r@ == spec_curl_command(
            config.master_password@,
            config.database_name@,
            config.backup_format@,
            config.url@,
            target@,
        ),
{
    "curl -X POST -F 'master_pwd=".to_owned().concat(config.master_password.as_str()).concat(
        "' -F 'name=",
    ).concat(config.database_name.as_str()).concat("' -F 'backup_format=").concat(
        config.backup_format.as_str(),
    ).concat("' ").concat(config.url.as_str()).concat("/web/database/backup -o ").concat(target)
}

/// The position of the first line break in `s`, or `s.len()` when there is
/// none.
pub open spec fn first_newline(s: Seq<char>) -> nat
    decreases s.len(),
{
    if s.len() == 0 {
        0
    } else if s[0] == '\n' {
        0
    } else {
        1 + first_newline(s.skip(1))
    }
}

proof fn lemma_first_newline_at(s: Seq<char>, k: int)
    requires
        0 <= k <= s.len(),
        forall|t: int| 0 <= t < k ==> s[t] != '\n',
        k < s.len() ==> s[k] == '\n',
    ensures
        first_newline(s) == k,
    decreases s.len(),
{
    if s.len() == 0 {
    } else if s[0] == '\n' {
        assert(k == 0);
    } else {
        lemma_first_newline_at(s.skip(1), k - 1);
    }
}

/// A line with one trailing carriage return removed.
pub open spec fn strip_cr(line: Seq<char>) -> Seq<char> {
    if line.len() > 0 && line.last() == '\r' {
        line.drop_last()
    } else {
        line
    }
}

/// The non-empty lines of `s`: the text between line breaks, each with a
/// trailing carriage return removed, blank lines dropped, in order.
pub open spec fn non_empty_lines(s: Seq<char>) -> Seq<Seq<char>>
    decreases s.len(),
{
    if s.len() == 0 {
        Seq::empty()
    } else {
        let k = first_newline(s);
        let line = strip_cr(s.take(k as int));
        let rest = if k < s.len() {
            non_empty_lines(s.skip(k as int + 1))
        } else {
            Seq::empty()
        };
        if line.len() > 0 {
            seq![line] + rest
        } else {
            rest
        }
    }
}

impl DockerManager {
    /// Interprets the output of a container-listing query: one container name
    /// per non-empty line.
    pub fn parse_container_names(&self, output: &str) -> (r: Vec<String>)
        ensures
            r.deep_view() == non_empty_lines(output@),
    {
        let len: usize = output.unicode_len();
        let mut result: Vec<String> = Vec::new();
        let mut i: usize = 0;
        proof {
            assert(output@.skip(0) =~= output@);
            assert(result.deep_view() + non_empty_lines(output@) =~= non_empty_lines(output@));
        }
        while i < len
            invariant
                len == output@.len(),
                i <= len,
                non_empty_lines(output@) == result.deep_view() + non_empty_lines(
                    output@.skip(i as int),
                ),
            decreases len - i,
        {
            let ghost suffix = output@.skip(i as int);
            let mut j: usize = i;
            while j < len && output.get_char(j) != '\n'
                invariant
                    len == output@.len(),
                    i <= j <= len,
                    forall|t: int| i <= t < j ==> output@[t] != '\n',
                decreases len - j,
            {
                j = j + 1;
            }
            proof {
                assert forall|t: int| 0 <= t < j - i implies suffix[t] != '\n' by {
                    assert(suffix[t] == output@[i + t]);
                }
                lemma_first_newline_at(suffix, j - i);
            }
            let mut end: usize = j;
            if end > i && output.get_char(end - 1) == '\r' {
                end = end - 1;
            }
            proof {
                assert(suffix.take(j - i) =~= output@.subrange(i as int, j as int));
                assert(strip_cr(suffix.take(j - i)) =~= output@.subrange(i as int, end as int));
            }
            if end > i {
                let line = output.substring_char(i, end);
                let ghost before = result.deep_view();
                result.push(line.to_owned());
                proof {
                    assert(result.deep_view() =~= before.push(output@.subrange(
                        i as int,
                        end as int,
                    )));
                    assert(before.push(output@.subrange(i as int, end as int)) =~= before + seq![
                        strip_cr(suffix.take(j - i)),
                    ]);
                }
            }
            proof {
                if j < len {
                    assert(suffix.skip(j - i + 1) =~= output@.skip(j + 1));
                } else {
                    assert(output@.skip(len as int) =~= Seq::<char>::empty());
                }
            }
            if j < len {
                i = j + 1;
            } else {
                i = len;
            }
        }
        proof {
            assert(output@.skip(len as int) =~= Seq::<char>::empty());
            assert(result.deep_view() + Seq::<Seq<char>>::empty() =~= result.deep_view());
        }
        result
    }
}

/// One database backup, fully planned: the filename and remote path of the
/// artifact, and each command the gateway will issue inside the container, in
/// the order they run. Everything is determined by the target and by the
/// timestamp taken when the plan was made.
#[derive(Debug)]
pub struct BackupPlan {
    /// The timestamp the artifact name was built from, taken at planning time.
    pub timestamp: String,
    /// The artifact filename, `backup_<subject>_<timestamp>.<format>`.
    pub backup_filename: String,
    /// Where the artifact is written inside the container.
    pub container_backup_path: String,
    /// Creates the remote output directory.
    pub mkdir_args: Vec<String>,
    /// Issues the backup trigger.
    pub curl_args: Vec<String>,
    /// Checks that the artifact exists after the trigger.
    pub check_args: Vec<String>,
}

impl BackupPlan {
    /// The plan is exactly what the gateway derives from the target and the
    /// plan's own timestamp.
    pub open spec fn wf(self, config: DatabaseConfig) -> bool {
        let filename = spec_backup_filename(
            config.database_name@,
            self.timestamp@,
            config.backup_format@,
        );
        let target = config.output_path@ + "/"@ + filename;
        &&& self.backup_filename@ == filename
        &&& self.container_backup_path@ == target
        &&& spec_is_shell_exec(self.mkdir_args, config.container_name@, "mkdir -p "@
            + config.output_path@)
        &&& spec_is_shell_exec(
            self.curl_args,
            config.container_name@,
            spec_curl_command(
                config.master_password@,
                config.database_name@,
                config.backup_format@,
                config.url@,
                target,
            ),
        )
        &&& spec_is_shell_exec(self.check_args, config.container_name@, "test -f "@ + target)
    }
}

/// `args` runs `command` under a shell inside `container_name`.
pub open spec fn spec_is_shell_exec(
    args: Vec<String>,
    container_name: Seq<char>,
    command: Seq<char>,
) -> bool {
    &&& args@.len() == 5
    &&& args@[0]@ == "exec"@
    &&& args@[1]@ == container_name
    &&& args@[2]@ == "sh"@
    &&& args@[3]@ == "-c"@
    &&& args@[4]@ == command
}

/// Relies on chrono's `Utc::now` and its format strings: the current UTC
/// time rendered as `YYYYMMDD_HHMMSS`. The result depends on the clock, so
/// nothing is promised of its text.
#[verifier::external_body]
fn current_timestamp() -> String {
    chrono::Utc::now().format("%Y%m%d_%H%M%S").to_string()
}

impl DockerManager {
    /// Plans one backup for a target: takes the timestamp now, derives the
    /// artifact name and remote path, and builds the directory-creation,
    /// trigger and existence-check commands. Collision risk between plans
    /// exists only for the same subject within the same second.
    pub fn plan_backup(&self, config: &DatabaseConfig) -> (r: BackupPlan)
        ensures
            r.wf(*config),
    {
        let timestamp = current_timestamp();
        let filename = backup_filename(
            config.database_name.as_str(),
            timestamp.as_str(),
            config.backup_format.as_str(),
        );
        let target = join_path(config.output_path.as_str(), filename.as_str());
        let mkdir_args = self.shell_exec_args(
            config.container_name.as_str(),
            mkdir_command(config.output_path.as_str()).as_str(),
        );
        let curl_args = self.shell_exec_args(
            config.container_name.as_str(),
            curl_backup_command(config, target.as_str()).as_str(),
        );
        let check_args = self.shell_exec_args(
            config.container_name.as_str(),
            existence_check_command(target.as_str()).as_str(),
        );
        BackupPlan {
            timestamp,
            backup_filename: filename,
            container_backup_path: target,
            mkdir_args,
            curl_args,
            check_args,
        }
    }
}

} // verus!
