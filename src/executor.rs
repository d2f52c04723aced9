//! Registry of the tools the model may call, and the `bash` tool's input and output.
use vstd::prelude::*;
use vstd::string::{StrSliceExecFns, StringExecFns};
use crate::brain::ToolDefinition;
use crate::text::{i64_to_decimal, signed_decimal};

verus! {

#[verifier::external_type_specification]
#[verifier::external_body]
pub struct ExJsonError(serde_json::Error);

/// What a tool returned.
#[derive(Debug, Clone)]
pub struct ToolOutput {
    /// The text the tool produced.
    pub content: String,
    /// Whether the tool reported a failure.
    pub is_error: bool,
}

impl ToolOutput {
    pub fn success(content: String) -> (r: ToolOutput)
        ensures
            r.content@ == content@,
            !r.is_error,
    {
        ToolOutput { content, is_error: false }
    }

    pub fn error(content: String) -> (r: ToolOutput)
        ensures
            r.content@ == content@,
            r.is_error,
    {
        ToolOutput { content, is_error: true }
    }
}

/// Limits of one execution.
#[derive(Debug, Clone)]
pub struct ExecutionConstraints {
    /// Longest run, in seconds.
    pub timeout_secs: u64,
    /// Most output kept, in bytes (stdout and stderr together).
    pub max_output_bytes: usize,
    /// Directory to run in.
    pub working_dir: Option<String>,
}

impl Default for ExecutionConstraints {
    fn default() -> (r: ExecutionConstraints)
        ensures
            r.timeout_secs == 30,
            r.max_output_bytes == 1048576,
            r.working_dir is None,
    {
        ExecutionConstraints { timeout_secs: 30, max_output_bytes: 1048576, working_dir: None }
    }
}

/// Settings of the executor.
#[derive(Debug, Clone)]
pub struct ExecutorConfig {
    pub constraints: ExecutionConstraints,
    /// Path of the optional table of tool descriptions.
    pub tools_toml_path: String,
    /// Shell that runs commands.
    pub shell: String,
}

impl Default for ExecutorConfig {
    fn default() -> (r: ExecutorConfig)
        ensures
            r.constraints.timeout_secs == 30,
            r.tools_toml_path@ == "tools.toml"@,
            r.shell@ == "/bin/sh"@,
    {
        ExecutorConfig {
            constraints: ExecutionConstraints::default(),
            tools_toml_path: String::from_str("tools.toml"),
            shell: String::from_str("/bin/sh"),
        }
    }
}

/// Errors of tool execution.
#[derive(Debug, Clone)]
pub enum ExecutorError {
    UnknownTool(String),
    InvalidInput(String, String),
    SpawnFailed(String, String),
    Timeout(String, u64),
    OutputCaptureFailed(String, String),
    Io(String),
    Json(String),
    TomlParse(String),
}

/// The text that describes an executor error.
pub open spec fn executor_error_text(e: ExecutorError) -> Seq<char> {
    match e {
        ExecutorError::UnknownTool(t) => "Unknown tool: "@ + t@,
        ExecutorError::InvalidInput(t, d) => "Invalid input for tool '"@ + t@ + "': "@ + d@,
        ExecutorError::SpawnFailed(t, d) => "Failed to spawn process for tool '"@ + t@ + "': "@ + d@,
        ExecutorError::Timeout(t, secs) => "Execution timeout for tool '"@ + t@ + "' after "@
            + crate::text::decimal(secs as nat) + " seconds"@,
        ExecutorError::OutputCaptureFailed(t, d) => "Failed to capture output for tool '"@ + t@ + "': "@ + d@,
        ExecutorError::Io(d) => "IO error: "@ + d@,
        ExecutorError::Json(d) => "JSON error: "@ + d@,
        ExecutorError::TomlParse(d) => "TOML parse error: "@ + d@,
    }
}

fn tool_detail(prefix: &str, tool: &String, middle: &str, detail: &String) -> (r: String)
    ensures
        r@ == prefix@ + tool@ + middle@ + detail@,
{
    let mut r = String::from_str(prefix);
    r.append(tool.as_str());
    r.append(middle);
    r.append(detail.as_str());
    r
}

impl ExecutorError {
    /// Describes the error.
    pub fn message(&self) -> (r: String)
        ensures
            r@ == executor_error_text(*self),
    {
        match self {
            ExecutorError::UnknownTool(t) => String::from_str("Unknown tool: ").concat(t.as_str()),
            ExecutorError::InvalidInput(t, d) => tool_detail("Invalid input for tool '", t, "': ", d),
            ExecutorError::SpawnFailed(t, d) => tool_detail("Failed to spawn process for tool '", t, "': ", d),
            ExecutorError::Timeout(t, secs) => {
                let mut r = String::from_str("Execution timeout for tool '");
                r.append(t.as_str());
                r.append("' after ");
                let n = crate::text::u64_to_decimal(*secs);
                r.append(n.as_str());
                r.append(" seconds");
                r
            },
            ExecutorError::OutputCaptureFailed(t, d) => tool_detail("Failed to capture output for tool '", t, "': ", d),
            ExecutorError::Io(d) => String::from_str("IO error: ").concat(d.as_str()),
            ExecutorError::Json(d) => String::from_str("JSON error: ").concat(d.as_str()),
            ExecutorError::TomlParse(d) => String::from_str("TOML parse error: ").concat(d.as_str()),
        }
    }
}

/// The text that `String::from_utf8_lossy` makes of some bytes.
pub uninterp spec fn lossy_utf8(b: Seq<u8>) -> Seq<char>;

/// Relies on String::from_utf8_lossy: the text depends on the bytes alone, and no
/// bytes give no text.
#[verifier::external_body]
fn utf8_lossy(b: &[u8]) -> (r: String)
    ensures
        r@ == lossy_utf8(b@),
        b@.len() == 0 ==> r@.len() == 0,
{
    String::from_utf8_lossy(b).into_owned()
}

/// The value under `key` of a JSON value that is an object holding that key.
pub uninterp spec fn json_get(v: serde_json::Value, key: Seq<char>) -> Option<serde_json::Value>;

/// The text of a JSON value that is a string.
pub uninterp spec fn json_as_text(v: serde_json::Value) -> Option<Seq<char>>;

/// Relies on serde_json::Value::get: the value under `key` when the value is an object
/// that has it; the answer depends on the value and the key alone.
#[verifier::external_body]
fn json_field(input: &serde_json::Value, key: &str) -> (r: Option<serde_json::Value>)
    ensures
        r == json_get(*input, key@),
{
    input.get(key).cloned()
}

/// Relies on serde_json::from_value: a JSON string reads as its text, and every other
/// value is refused with the reason.
#[verifier::external_body]
pub(crate) fn json_string(v: serde_json::Value) -> (r: Result<String, serde_json::Error>)
    ensures
        r is Ok <==> json_as_text(v) is Some,
        r is Ok ==> r->Ok_0@ == json_as_text(v)->0,
{
    serde_json::from_value::<String>(v)
}

/// The command that a `bash` input holds: the text of its `command` field, when that
/// field is there and is a string.
pub open spec fn bash_command(input: serde_json::Value) -> Option<Seq<char>> {
    match json_get(input, "command"@) {
        Some(f) => json_as_text(f),
        None => None,
    }
}

/// The JSON value a text holds, if it holds one.
pub uninterp spec fn json_parse(text: Seq<char>) -> Option<serde_json::Value>;

/// Relies on serde_json::from_str: the JSON value a text holds, or why it holds none;
/// the result depends on the text alone.
#[verifier::external_body]
fn parse_json(text: &str) -> (r: Result<serde_json::Value, serde_json::Error>)
    ensures
        r is Ok <==> json_parse(text@) is Some,
        r is Ok ==> r->Ok_0 == json_parse(text@)->0,
{
    serde_json::from_str(text)
}

/// serde_json::Value implements Default as the null value, which is what the text
/// `null` holds.
pub assume_specification[ <serde_json::Value as Default>::default ]() -> (r: serde_json::Value)
    ensures
        json_parse("null"@) == Some(r),
;

/// The input schema of the shell tool, as JSON text: an object with one required
/// string property, `command`.
pub open spec fn bash_schema_text() -> Seq<char> {
    "{\"type\":\"object\",\"properties\":{\"command\":{\"type\":\"string\",\"description\":\"The bash command to execute\"}},\"required\":[\"command\"]}"@
}

/// The input schema given to the model: the value of `bash_schema_text`, or null
/// should that text not parse.
pub open spec fn bash_input_schema() -> serde_json::Value {
    match json_parse(bash_schema_text()) {
        Some(v) => v,
        None => json_parse("null"@)->0,
    }
}

/// Name under which the shell tool is registered.
pub open spec fn bash_name() -> Seq<char> {
    "bash"@
}

/// The text of a shell run: standard output and standard error under their headings
/// when not empty, then the exit code, or -1 when the process ended by a signal.
pub open spec fn bash_content(stdout: Seq<u8>, stderr: Seq<u8>, code: Option<i32>) -> Seq<char> {
    let out_part = if stdout.len() > 0 { "[stdout]\n"@ + lossy_utf8(stdout) } else { Seq::empty() };
    let err_part = if stderr.len() > 0 {
        (if stdout.len() > 0 { "\n"@ } else { Seq::empty() }) + "[stderr]\n"@ + lossy_utf8(stderr)
    } else {
        Seq::empty()
    };
    let shown: int = match code {
        Some(c) => c as int,
        None => -1,
    };
    out_part + err_part + "\n[exit_code]\n"@ + signed_decimal(shown)
}

/// The shell tool: runs a command with `/bin/sh -c`.
#[derive(Debug, Clone)]
pub struct BashTool {
    description: String,
}

impl BashTool {
    pub closed spec fn description_view(&self) -> Seq<char> {
        self.description@
    }

    pub fn new(description: String) -> (r: BashTool)
        ensures
            r.description_view() == description@,
    {
        BashTool { description }
    }

    /// The definition given to the model: the name, the description and an input
    /// schema with one required string, `command`.
    pub fn definition(&self) -> (r: ToolDefinition)
        ensures
            r.name@ == bash_name(),
            r.description@ == self.description_view(),
            r.input_schema == bash_input_schema(),
    {
        let schema = match parse_json(
            "{\"type\":\"object\",\"properties\":{\"command\":{\"type\":\"string\",\"description\":\"The bash command to execute\"}},\"required\":[\"command\"]}",
        ) {
            Ok(v) => v,
            Err(_) => serde_json::Value::default(),
        };
        ToolDefinition { name: String::from_str("bash"), description: self.description.clone(), input_schema: schema }
    }

    /// The command that an input asks for: its `command` field, which must be a string.
    pub fn parse_input(input: &serde_json::Value) -> (r: Result<String, ExecutorError>)
        ensures
            r is Ok <==> bash_command(*input) is Some,
            r is Ok ==> r->Ok_0@ == bash_command(*input)->0,
            r is Err ==> r->Err_0 is InvalidInput && r->Err_0->InvalidInput_0@ == bash_name(),
    {
        match json_field(input, "command") {
            None => Err(ExecutorError::InvalidInput(
                String::from_str("bash"),
                String::from_str("missing field `command`"),
            )),
            Some(v) => match json_string(v) {
                Ok(s) => Ok(s),
                Err(e) => Err(ExecutorError::InvalidInput(String::from_str("bash"), e.to_string())),
            },
        }
    }

    /// What a finished shell run returns: its text, and a failure unless it exited
    /// with status zero.
    pub fn output(stdout: &[u8], stderr: &[u8], code: Option<i32>) -> (r: ToolOutput)
        ensures
            r.content@ == bash_content(stdout@, stderr@, code),
            r.is_error <==> code != Some(0i32),
    {
        let mut content = String::new();
        if stdout.len() > 0 {
            content.append("[stdout]\n");
            let text = utf8_lossy(stdout);
            content.append(text.as_str());
        }
        let had_stdout = stdout.len() > 0;
        if stderr.len() > 0 {
            if had_stdout {
                content.append("\n");
            }
            content.append("[stderr]\n");
            let text = utf8_lossy(stderr);
            content.append(text.as_str());
        }
        content.append("\n[exit_code]\n");
        let shown: i64 = match code {
            Some(c) => c as i64,
            None => -1,
        };
        let digits = i64_to_decimal(shown);
        content.append(digits.as_str());
        let is_error = match code {
            Some(c) => c != 0,
            None => true,
        };
        proof {
            assert(Seq::<char>::empty() + "[stdout]\n"@ =~= "[stdout]\n"@);
        }
        ToolOutput { content, is_error }
    }
}

/// Default description of the shell tool.
pub fn default_bash_description() -> (r: String)
    ensures
        r@ == "Execute a shell command via /bin/sh -c.\nThe system is Linux.\nCommands run with daemon process privileges.\nStdout and stderr are captured. Exit code is returned."@,
{
    String::from_str("Execute a shell command via /bin/sh -c.\nThe system is Linux.\nCommands run with daemon process privileges.\nStdout and stderr are captured. Exit code is returned.")
}

/// A tool call that the caller is to run: a shell command.
#[derive(Debug, Clone)]
pub enum ToolInvocation {
    Shell { shell: String, command: String },
}

/// The registered tools, fixed once made.
#[derive(Debug, Clone)]
pub struct Executor {
    config: ExecutorConfig,
    bash: BashTool,
}

impl Executor {
    /// The registered tools' names.
    pub open spec fn tool_names() -> Seq<Seq<char>> {
        seq![bash_name()]
    }

    pub closed spec fn bash_description(&self) -> Seq<char> {
        self.bash.description_view()
    }

    pub closed spec fn shell(&self) -> Seq<char> {
        self.config.shell@
    }

    /// The executor with the shell tool, described by `bash_description` when one is
    /// given and by the default description otherwise.
    pub fn init(config: ExecutorConfig, bash_description: Option<String>) -> (r: Executor)
        ensures
            bash_description is Some ==> r.bash_description() == bash_description->0@,
            bash_description is None ==> r.bash_description() == default_bash_description_text(),
            r.shell() == config.shell@,
    {
        let desc = match bash_description {
            Some(d) => d,
            None => default_bash_description(),
        };
        Executor { config, bash: BashTool::new(desc) }
    }

    /// Same as `init`.
    pub fn new(config: ExecutorConfig, bash_description: Option<String>) -> (r: Executor)
        ensures
            bash_description is Some ==> r.bash_description() == bash_description->0@,
            bash_description is None ==> r.bash_description() == default_bash_description_text(),
            r.shell() == config.shell@,
    {
        Executor::init(config, bash_description)
    }

    /// One definition per registered tool.
    pub fn tool_definitions(&self) -> (r: Vec<ToolDefinition>)
        ensures
            r@.len() == Executor::tool_names().len(),
            forall|i: int| 0 <= i < r@.len() ==> (#[trigger] r@[i]).name@ == Executor::tool_names()[i],
            r@[0].description@ == self.bash_description(),
            r@[0].input_schema == bash_input_schema(),
    {
        let mut r: Vec<ToolDefinition> = Vec::new();
        r.push(self.bash.definition());
        r
    }

    /// Looks up a tool and checks its input; what is left to do is to run the result.
    pub fn prepare(&self, tool_name: &str, input: &serde_json::Value) -> (r: Result<ToolInvocation, ExecutorError>)
        ensures
            tool_name@ != bash_name() ==> r is Err && r->Err_0 is UnknownTool && r->Err_0->UnknownTool_0@ == tool_name@,
            tool_name@ == bash_name() ==> (r is Ok <==> bash_command(*input) is Some),
            tool_name@ == bash_name() && r is Ok ==> r->Ok_0->shell@ == self.shell()
                && r->Ok_0->command@ == bash_command(*input)->0,
            tool_name@ == bash_name() && r is Err ==> r->Err_0 is InvalidInput
                && r->Err_0->InvalidInput_0@ == bash_name(),
    {
        proof {
            reveal_strlit("bash");
        }
        if !str_eq(tool_name, "bash") {
            return Err(ExecutorError::UnknownTool(String::from_str(tool_name)));
        }
        let command = BashTool::parse_input(input)?;
        Ok(ToolInvocation::Shell { shell: self.config.shell.clone(), command })
    }
}

/// The default description, as text.
pub open spec fn default_bash_description_text() -> Seq<char> {
    "Execute a shell command via /bin/sh -c.\nThe system is Linux.\nCommands run with daemon process privileges.\nStdout and stderr are captured. Exit code is returned."@
}

/// Whether two texts are equal.
pub fn str_eq(a: &str, b: &str) -> (r: bool)
    ensures
        r <==> a@ == b@,
{
    let n = a.unicode_len();
    if n != b.unicode_len() {
        return false;
    }
    let mut i: usize = 0;
    while i < n
        invariant
            n == a@.len(),
            n == b@.len(),
            i <= n,
            forall|j: int| 0 <= j < i ==> a@[j] == b@[j],
        decreases n - i,
    {
        if a.get_char(i) != b.get_char(i) {
            return false;
        }
        i = i + 1;
    }
    assert(a@ =~= b@);
    true
}

/// The description given for `tool` in a table of (tool, description) entries: that of
/// the first entry for the tool, when it has one.
pub open spec fn described(entries: Seq<(Seq<char>, Option<Seq<char>>)>, tool: Seq<char>) -> Option<Seq<char>>
    decreases entries.len(),
{
    if entries.len() == 0 {
        None
    } else if entries[0].0 == tool {
        entries[0].1
    } else {
        described(entries.drop_first(), tool)
    }
}

pub open spec fn description_entries(entries: Seq<(String, Option<String>)>) -> Seq<(Seq<char>, Option<Seq<char>>)> {
    entries.map_values(|e: (String, Option<String>)| (e.0@, match e.1 {
        Some(d) => Some(d@),
        None => None,
    }))
}

/// Picks the description of `tool` from the entries of a descriptions table.
pub fn tool_description(entries: &Vec<(String, Option<String>)>, tool: &str) -> (r: Option<String>)
    ensures
        match r {
            Some(d) => described(description_entries(entries@), tool@) == Some(d@),
            None => described(description_entries(entries@), tool@) is None,
        },
{
    let ghost es = description_entries(entries@);
    let mut i: usize = 0;
    assert(es.subrange(0, es.len() as int) =~= es);
    while i < entries.len()
        invariant
            es == description_entries(entries@),
            i <= entries@.len(),
            described(es, tool@) == described(es.subrange(i as int, es.len() as int), tool@),
        decreases entries@.len() - i,
    {
        let ghost rest = es.subrange(i as int, es.len() as int);
        assert(rest.drop_first() =~= es.subrange(i + 1, es.len() as int));
        assert(rest[0] == es[i as int]);
        if str_eq(entries[i].0.as_str(), tool) {
            return match &entries[i].1 {
                Some(d) => Some(d.clone()),
                None => None,
            };
        }
        i = i + 1;
    }
    None
}

} // verus!
