//! Configuration of the OpenAI-compatible embeddings client
//! (llama-server --embeddings) and the request body it sends.

use vstd::prelude::*;
use vstd::string::*;

verus! {

broadcast use vstd::string::group_string_axioms;

/// Endpoint of the local Qwen3-Embedding-8B server.
pub const DEFAULT_EMBED_URL: &'static str = "http://127.0.0.1:8302/v1/embeddings";

/// Width of a Qwen3-Embedding-8B vector (GGUF n_embd).
pub const QWEN_EMBED_DIM: usize = 4096;

/// Model id of the local Qwen3 embedding model, in the path form that
/// llama-server lists under /v1/models.
pub const LOCAL_QWEN_MODEL: &'static str = "/home/ruffianl/models/Qwen3-Embedding-8B-Q8_0.gguf";

/// Seconds that one embedding request may take.
pub const DEFAULT_TIMEOUT_SECS: u64 = 120;

/// Where and how to ask for embeddings.
#[derive(Debug, Clone)]
pub struct EmbedClient {
    pub url: String,
    /// Model id as expected by the server (path or alias). Empty = server default.
    pub model: String,
    pub timeout_secs: u64,
}

impl Default for EmbedClient {
    fn default() -> (client: Self)
        ensures
            client.url@ == DEFAULT_EMBED_URL@,
            client.model@ == Seq::<char>::empty(),
            client.timeout_secs == DEFAULT_TIMEOUT_SECS,
    {
        EmbedClient {
            url: DEFAULT_EMBED_URL.to_string(),
            model: String::new(),
            timeout_secs: DEFAULT_TIMEOUT_SECS,
        }
    }
}

impl EmbedClient {
    /// Client for the local Qwen3-Embedding-8B server, naming its model explicitly.
    pub fn local_qwen() -> (client: Self)
        ensures
            client.url@ == DEFAULT_EMBED_URL@,
            client.model@ == LOCAL_QWEN_MODEL@,
            client.timeout_secs == DEFAULT_TIMEOUT_SECS,
    {
        EmbedClient {
            url: DEFAULT_EMBED_URL.to_string(),
            model: LOCAL_QWEN_MODEL.to_string(),
            timeout_secs: DEFAULT_TIMEOUT_SECS,
        }
    }
}

/// Lower-case hexadecimal digit of `d` (0 to 15).
pub open spec fn hex_digit(d: int) -> char {
    if d < 10 {
        (('0' as u32) + d) as char
    } else {
        (('a' as u32) + d - 10) as char
    }
}

/// How JSON writes one character inside a string: the quote and the
/// backslash get a backslash, backspace, tab, line feed, form feed and
/// carriage return their short escapes, other characters below U+0020 the
/// form `\u00xx` in lower-case hex, and every other character stays as it is.
pub open spec fn json_escape_char(c: char) -> Seq<char> {
    let b = c as u32;
    if c == '"' {
        seq!['\\', '"']
    } else if c == '\\' {
        seq!['\\', '\\']
    } else if b == 0x08 {
        seq!['\\', 'b']
    } else if b == 0x09 {
        seq!['\\', 't']
    } else if b == 0x0A {
        seq!['\\', 'n']
    } else if b == 0x0C {
        seq!['\\', 'f']
    } else if b == 0x0D {
        seq!['\\', 'r']
    } else if b < 0x20 {
        seq!['\\', 'u', '0', '0', hex_digit((b / 16) as int), hex_digit((b % 16) as int)]
    } else {
        seq![c]
    }
}

/// The characters of `s`, each escaped as JSON writes it.
pub open spec fn json_escape(s: Seq<char>) -> Seq<char>
    decreases s.len(),
{
    if s.len() == 0 {
        Seq::empty()
    } else {
        json_escape_char(s[0]) + json_escape(s.drop_first())
    }
}

/// `s` as a JSON string literal: escaped, between two double quotes.
pub open spec fn json_string_literal(s: Seq<char>) -> Seq<char> {
    seq!['"'] + json_escape(s) + seq!['"']
}

/// A string that JSON writes verbatim between its quotes: no control
/// character, no quote and no backslash.
pub open spec fn is_plain_json_text(s: Seq<char>) -> bool {
    forall|k: int| 0 <= k < s.len() ==> 0x20 <= #[trigger] (s[k] as u32) && s[k] != '"' && s[k] != '\\'
}

/// Plain text needs no escaping.
pub proof fn lemma_plain_text_is_unescaped(s: Seq<char>)
    requires
        is_plain_json_text(s),
    ensures
        json_escape(s) == s,
    decreases s.len(),
{
    if s.len() > 0 {
        assert(0x20 <= (s[0] as u32));
        let t = s.drop_first();
        assert forall|k: int| 0 <= k < t.len() implies 0x20 <= #[trigger] (t[k] as u32) && t[k]
            != '"' && t[k] != '\\' by {
            assert(t[k] == s[k + 1]);
            assert(0x20 <= (s[k + 1] as u32));
        }
        lemma_plain_text_is_unescaped(t);
        assert(seq![s[0]] + t =~= s);
    }
}

#[verifier::external_type_specification]
#[verifier::external_body]
pub struct ExJsonError(serde_json::Error);

/// Calls `serde_json::to_string` on a `&str`.
///
/// Claimed of it: the call succeeds (a `str` serializes by writing its escaped
/// bytes into a `Vec<u8>`, which cannot fail), and its text is the string
/// between double quotes with each character escaped by serde_json's escape
/// table, as `json_string_literal` spells out: the quote and the backslash
/// get a backslash; bytes 0x08, 0x09, 0x0A, 0x0C and 0x0D the escapes
/// `\b \t \n \f \r`; other bytes below 0x20 the form `\u00xx` with lower-case
/// hex digits; every other character, multi-byte ones included, is written
/// unchanged.
#[verifier::external_body]
fn encode_json_string(s: &str) -> (r: Result<String, serde_json::Error>)
    ensures
        r is Ok,
        r matches Ok(t) ==> t@ == json_string_literal(s@),
{
    serde_json::to_string(s)
}

/// The JSON body of an embeddings request: an object whose `input` is the
/// text and which names the model only when one is set.
pub open spec fn spec_request_body(input: Seq<char>, model: Seq<char>) -> Seq<char> {
    let model_part = if model.len() == 0 {
        Seq::<char>::empty()
    } else {
        ",\"model\":"@ + json_string_literal(model)
    };
    "{\"input\":"@ + json_string_literal(input) + model_part + "}"@
}

/// Law: an embeddings request body is the object `{"input": <text>}`, with
/// `,"model": <model>` before the closing brace exactly when a model is
/// set; the text and the model always appear as JSON string literals, so
/// quotes, backslashes and control characters in them are escaped.
pub proof fn lemma_request_body_fields(text: Seq<char>, model: Seq<char>)
    ensures
        model.len() == 0 ==> spec_request_body(text, model) == "{\"input\":"@ + json_string_literal(
            text,
        ) + "}"@,
        model.len() > 0 ==> spec_request_body(text, model) == "{\"input\":"@ + json_string_literal(
            text,
        ) + ",\"model\":"@ + json_string_literal(model) + "}"@,
{
    if model.len() == 0 {
        assert("{\"input\":"@ + json_string_literal(text) + Seq::<char>::empty() =~= "{\"input\":"@
            + json_string_literal(text));
    }
}

/// Law: the model never changes how the text is written. For any two models,
/// the two bodies for one text begin with the same `{"input":` followed by the
/// text's JSON string literal.
pub proof fn lemma_input_field_ignores_model(text: Seq<char>, model1: Seq<char>, model2: Seq<char>)
    ensures
        ({
            let head = "{\"input\":"@ + json_string_literal(text);
            &&& spec_request_body(text, model1).len() > head.len()
            &&& spec_request_body(text, model1).subrange(0, head.len() as int) == head
            &&& spec_request_body(text, model1).subrange(0, head.len() as int)
                == spec_request_body(text, model2).subrange(0, head.len() as int)
        }),
{
    let head = "{\"input\":"@ + json_string_literal(text);
    lemma_request_body_fields(text, model1);
    lemma_request_body_fields(text, model2);
    reveal_strlit("}");
    let b1 = spec_request_body(text, model1);
    let b2 = spec_request_body(text, model2);
    assert(b1.subrange(0, head.len() as int) =~= head);
    assert(b2.subrange(0, head.len() as int) =~= head);
}

impl EmbedClient {
    /// The body that `embed` posts: `{"input": text}`, with `"model"` added when
    /// this client names a model.
    pub fn request_body(&self, text: &str) -> (body: String)
        ensures
            body@ == spec_request_body(text@, self.model@),
            self.model@.len() == 0 ==> body@ == "{\"input\":"@ + json_string_literal(text@) + "}"@,
            self.model@.len() > 0 ==> body@ == "{\"input\":"@ + json_string_literal(text@)
                + ",\"model\":"@ + json_string_literal(self.model@) + "}"@,
            is_plain_json_text(text@) && self.model@.len() == 0 ==> body@ == "{\"input\":\""@
                + text@ + "\"}"@,
            is_plain_json_text(text@) && self.model@.len() > 0 && is_plain_json_text(self.model@)
                ==> body@ == "{\"input\":\""@ + text@ + "\",\"model\":\""@ + self.model@
                + "\"}"@,
    {
        let mut body = String::new();
        body.append("{\"input\":");
        let input = match encode_json_string(text) {
            Ok(t) => t,
            Err(_) => String::new(),
        };
        body.append(input.as_str());
        if !self.model.as_str().is_empty() {
            body.append(",\"model\":");
            let model = match encode_json_string(self.model.as_str()) {
                Ok(t) => t,
                Err(_) => String::new(),
            };
            body.append(model.as_str());
        }
        body.append("}");
        proof {
            lemma_request_body_fields(text@, self.model@);
            reveal_strlit("{\"input\":");
            reveal_strlit(",\"model\":");
            reveal_strlit("}");
            reveal_strlit("{\"input\":\"");
            reveal_strlit("\"}");
            reveal_strlit("\",\"model\":\"");
            if is_plain_json_text(text@) {
                lemma_plain_text_is_unescaped(text@);
                if self.model@.len() == 0 {
                    assert(body@ =~= "{\"input\":\""@ + text@ + "\"}"@);
                } else if is_plain_json_text(self.model@) {
                    lemma_plain_text_is_unescaped(self.model@);
                    assert(body@ =~= "{\"input\":\""@ + text@ + "\",\"model\":\""@
                        + self.model@ + "\"}"@);
                }
            }
        }
        body
    }
}

} // verus!
