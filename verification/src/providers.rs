//! Model-provider logic that does not need the network or a child process:
//! which provider to use, the Bob Shell prompt, arguments and error texts, and
//! the canned replies of the mock provider.
use vstd::prelude::*;

use crate::patterns::{lossy_text, utf8_lossy};
use crate::stages::FileSummary;
use crate::text::{
    copy_str, dec_int, is_prefix, push_str, starts_with, string_from_chars, string_from_range,
    take_chars, take_chars_str, trim, trim_chars, trim_str,
};

verus! {

broadcast use vstd::string::group_string_axioms;

// ---------- provider selection ----------

/// The provider a run uses.
#[derive(Debug, Clone, Copy, PartialEq, Eq, Structural)]
pub enum ProviderChoice {
    /// Canned replies, for tests and CI.
    Mock,
    /// The Bob Shell command-line client.
    Bob,
    /// Fails every call with `STUB_PROVIDER_MESSAGE`.
    Stub,
}

/// Error of every call when no provider is configured.
pub const STUB_PROVIDER_MESSAGE: &'static str = "No model provider is configured. Set MODEL_PROVIDER=bob and BOB_API_KEY, or set GITLENS_MOCK_PROVIDER=1 for testing.";

/// Provider selection, in priority order: the mock flag set to `1`, then a
/// provider name of `bob`, else the stub. (A Bob provider that cannot be built
/// falls back to the stub too.)
pub fn choose_provider(mock_flag: Option<&str>, provider_name: Option<&str>) -> (r: ProviderChoice)
    ensures
        r == (if mock_flag matches Some(f) && f@ == "1"@ {
            ProviderChoice::Mock
        } else if provider_name matches Some(p) && p@ == "bob"@ {
            ProviderChoice::Bob
        } else {
            ProviderChoice::Stub
        }),
{
    let mock = match mock_flag {
        Some(f) => crate::text::str_eq(f, "1"),
        None => false,
    };
    if mock {
        return ProviderChoice::Mock;
    }
    let bob = match provider_name {
        Some(p) => crate::text::str_eq(p, "bob"),
        None => false,
    };
    if bob {
        ProviderChoice::Bob
    } else {
        ProviderChoice::Stub
    }
}

/// The greeting of the desktop shell's sample command.
pub fn greet(name: &str) -> (r: String)
    ensures
        r@ == "Hello, "@ + name@ + "! You've been greeted from Rust!"@,
{
    let mut r = copy_str("Hello, ");
    push_str(&mut r, name);
    push_str(&mut r, "! You've been greeted from Rust!");
    r
}

// ---------- Bob Shell ----------

/// A provider that runs the `bob` command-line client for every call.
#[derive(Debug)]
pub struct BobShellProvider {
    bob_path: String,
    api_key: String,
}

/// Error when the API key is absent.
pub const API_KEY_MISSING_MESSAGE: &'static str = "BOB_API_KEY environment variable is not set";

/// Error when the API key is blank.
pub const API_KEY_EMPTY_MESSAGE: &'static str = "BOB_API_KEY is set but empty";

/// Binary used when no path is configured (looked up on `PATH`).
pub const DEFAULT_BOB_PATH: &'static str = "bob";

impl BobShellProvider {
    pub closed spec fn spec_bob_path(&self) -> Seq<char> {
        self.bob_path@
    }

    pub closed spec fn spec_api_key(&self) -> Seq<char> {
        self.api_key@
    }

    /// A provider with the given binary and API key.
    pub fn new(bob_path: String, api_key: String) -> (r: Self)
        ensures
            r.spec_bob_path() == bob_path@,
            r.spec_api_key() == api_key@,
    {
        BobShellProvider { bob_path, api_key }
    }

    /// A provider from the values of `BOB_API_KEY` (required, not blank) and
    /// `BOB_PATH` (optional, default `bob`).
    pub fn from_env_values(api_key: Option<String>, bob_path: Option<String>) -> (r: Result<
        Self,
        String,
    >)
        ensures
            match api_key {
                None => r matches Err(e) && e@ == API_KEY_MISSING_MESSAGE@,
                Some(k) => if trim(k@).len() == 0 {
                    r matches Err(e) && e@ == API_KEY_EMPTY_MESSAGE@
                } else {
                    r matches Ok(p) && p.spec_api_key() == k@ && p.spec_bob_path() == (
                    match bob_path {
                        Some(b) => b@,
                        None => DEFAULT_BOB_PATH@,
                    })
                },
            },
    {
        let key = match api_key {
            None => return Err(copy_str(API_KEY_MISSING_MESSAGE)),
            Some(k) => k,
        };
        let t = trim_str(key.as_str());
        if t.as_str().is_empty() {
            return Err(copy_str(API_KEY_EMPTY_MESSAGE));
        }
        let path = match bob_path {
            Some(b) => b,
            None => copy_str(DEFAULT_BOB_PATH),
        };
        Ok(BobShellProvider { bob_path: path, api_key: key })
    }

    /// The configured binary.
    pub fn bob_path(&self) -> (r: &str)
        ensures
            r@ == self.spec_bob_path(),
    {
        self.bob_path.as_str()
    }

    /// The configured API key.
    pub fn api_key(&self) -> (r: &str)
        ensures
            r@ == self.spec_api_key(),
    {
        self.api_key.as_str()
    }
}

/// Instruction added when the call asks for structured output.
pub const SCHEMA_INSTRUCTION: &'static str = "\n\nYou MUST respond with valid JSON that matches this schema:\n";

/// Closing line after the schema.
pub const SCHEMA_CLOSING: &'static str = "\nReturn only the JSON object — no markdown fences, no explanation.";

/// The single prompt handed to `bob -p`: the system instructions (when any),
/// the user prompt, and, when the call carries a schema (`schema_json`, pretty
/// printed), the request to answer with matching JSON.
pub open spec fn bob_prompt_of(system: Seq<char>, user: Seq<char>, schema_json: Option<Seq<char>>) -> Seq<
    char,
> {
    (if system.len() == 0 {
        Seq::empty()
    } else {
        "SYSTEM INSTRUCTIONS:\n"@ + system + "\n\n"@
    }) + user + match schema_json {
        Some(j) => SCHEMA_INSTRUCTION@ + j + SCHEMA_CLOSING@,
        None => Seq::empty(),
    }
}

/// Builds the prompt for `bob -p`; Bob Shell has no separate system role.
pub fn build_prompt(system: &str, user: &str, schema_json: Option<&str>) -> (r: String)
    ensures
        r@ == bob_prompt_of(
            system@,
            user@,
            match schema_json {
                Some(j) => Some(j@),
                None => None,
            },
        ),
{
    let mut prompt = String::new();
    if !system.is_empty() {
        push_str(&mut prompt, "SYSTEM INSTRUCTIONS:\n");
        push_str(&mut prompt, system);
        push_str(&mut prompt, "\n\n");
    }
    push_str(&mut prompt, user);
    match schema_json {
        Some(j) => {
            push_str(&mut prompt, SCHEMA_INSTRUCTION);
            push_str(&mut prompt, j);
            push_str(&mut prompt, SCHEMA_CLOSING);
        },
        None => {},
    }
    prompt
}

/// Arguments of the `bob` invocation for `prompt`.
pub fn command_args(prompt: &str) -> (r: Vec<String>)
    ensures
        r@.len() == 5,
        r@[0]@ == "--auth-method"@,
        r@[1]@ == "api-key"@,
        r@[2]@ == "--hide-intermediary-output"@,
        r@[3]@ == "-p"@,
        r@[4]@ == prompt@,
{
    let mut r: Vec<String> = Vec::new();
    r.push(copy_str("--auth-method"));
    r.push(copy_str("api-key"));
    r.push(copy_str("--hide-intermediary-output"));
    r.push(copy_str("-p"));
    r.push(copy_str(prompt));
    r
}

/// How many characters of the client's stderr an exit error quotes.
pub const STDERR_SNIPPET_CHARS: usize = 300;

/// The error of a client that exited unsuccessfully: its exit code (`-1` when
/// it has none, e.g. killed by a signal) and the start of its stderr.
pub fn exit_error_message(code: Option<i32>, stderr: &[u8]) -> (r: String)
    ensures
        r@ == "Bob Shell exited with code "@ + dec_int(
            match code {
                Some(c) => c as int,
                None => -1,
            },
        ) + ". stderr: "@ + take_chars(utf8_lossy(stderr@), STDERR_SNIPPET_CHARS as nat),
{
    let c: i32 = match code {
        Some(c) => c,
        None => -1,
    };
    let mut r = copy_str("Bob Shell exited with code ");
    let cs = crate::text::i64_to_string(c as i64);
    push_str(&mut r, cs.as_str());
    push_str(&mut r, ". stderr: ");
    let text = lossy_text(stderr);
    let snippet = take_chars_str(text.as_str(), STDERR_SNIPPET_CHARS);
    push_str(&mut r, snippet.as_str());
    r
}

/// The error when the client cannot be started: a hint to install it when the
/// binary does not exist, else the spawn error's text.
pub fn spawn_error_message(bob_path: &str, not_found: bool, error_text: &str) -> (r: String)
    ensures
        not_found ==> r@ == "Bob Shell binary not found at '"@ + bob_path@
            + "'. Install Bob Shell and ensure it is on PATH. See https://bob.ibm.com/docs/shell/getting-started/install-and-setup"@,
        !not_found ==> r@ == "Failed to spawn Bob Shell: "@ + error_text@,
{
    if not_found {
        let mut r = copy_str("Bob Shell binary not found at '");
        push_str(&mut r, bob_path);
        push_str(
            &mut r,
            "'. Install Bob Shell and ensure it is on PATH. See https://bob.ibm.com/docs/shell/getting-started/install-and-setup",
        );
        r
    } else {
        let mut r = copy_str("Failed to spawn Bob Shell: ");
        push_str(&mut r, error_text);
        r
    }
}

/// The reply text of a successful run: its stdout, decoded lossily and
/// trimmed.
pub fn response_text(stdout: &[u8]) -> (r: String)
    ensures
        r@ == trim(utf8_lossy(stdout@)),
{
    let text = lossy_text(stdout);
    trim_str(text.as_str())
}

} // verus!
