//! How the command-line tools word what they print.

use vstd::prelude::*;
use vstd::string::StringExecFns;
use crate::text::chars_of;

verus! {

/// The form in which a tool prints.
#[derive(Debug, Clone, Copy, PartialEq, Eq, Structural)]
pub enum OutputFormat {
    /// Text for a reader.
    Text,
    /// JSON.
    Json,
}

/// Words a tool's output.
pub struct OutputFormatter {
    format: OutputFormat,
}

/// Whether `c` is the lower-case letter `letter` or its ASCII capital.
pub open spec fn same_letter(c: char, letter: char) -> bool {
    c == letter || (65 <= c as u32 <= 90 && c as u32 + 32 == letter as u32)
}

/// Whether `s` is the lower-case word `word`, in any mix of cases.
pub open spec fn spells(s: Seq<char>, word: Seq<char>) -> bool {
    s.len() == word.len() && forall|i: int| 0 <= i < s.len() ==> same_letter(s[i], word[i])
}

/// The pretty-printed JSON object with the member `flag_name`, which holds
/// `flag`, and the member `text_name`, which holds the string `text`.
pub uninterp spec fn two_member_json(
    flag_name: Seq<char>,
    flag: bool,
    text_name: Seq<char>,
    text: Seq<char>,
) -> Seq<char>;

/// `serde_json::to_string_pretty` of the object with a boolean member and a
/// string member: where it hands back a text, the text is a function of the
/// arguments.  Nothing is said of when it does.
#[verifier::external_body]
fn to_two_member_json(flag_name: &str, flag: bool, text_name: &str, text: &str) -> (json: Option<String>)
    ensures
        json matches Some(j) ==> j@ == two_member_json(flag_name@, flag, text_name@, text@),
{
    let mut object = serde_json::Map::new();
    object.insert(flag_name.to_string(), serde_json::Value::Bool(flag));
    object.insert(text_name.to_string(), serde_json::Value::String(text.to_string()));
    match serde_json::to_string_pretty(&serde_json::Value::Object(object)) {
        Ok(json) => Some(json),
        Err(_) => None,
    }
}

/// The one-line object that stands in where the serializer hands back no
/// text.  The message is quoted as it is.
pub open spec fn fallback_json(flag_name: Seq<char>, message: Seq<char>) -> Seq<char> {
    "{\""@ + flag_name + "\": true, \"message\": \""@ + message + "\"}"@
}

/// The serializer's text where there is one, else the one-line object.
pub open spec fn outcome_json(flag_name: Seq<char>, message: Seq<char>, json: Option<String>) -> Seq<
    char,
> {
    match json {
        Some(text) => text@,
        None => fallback_json(flag_name, message),
    }
}

/// What is printed in JSON for an outcome, given what the serializer handed
/// back for it.
pub fn json_or_fallback(flag_name: &str, message: &str, json: Option<String>) -> (text: String)
    ensures
        text@ == outcome_json(flag_name@, message@, json),
{
    match json {
        Some(text) => text,
        None => {
            let mut text = "{\"".to_owned();
            text.append(flag_name);
            text.append("\": true, \"message\": \"");
            text.append(message);
            text.append("\"}");
            text
        },
    }
}

/// Whether `r` is what the name `s` reads as: `Text` for `text` or `txt`,
/// `Json` for `json`, in any mix of cases, and for any other name an error
/// that quotes it.
pub open spec fn names_format(s: Seq<char>, r: Result<OutputFormat, String>) -> bool {
    match r {
        Ok(OutputFormat::Text) => spells(s, "text"@) || spells(s, "txt"@),
        Ok(OutputFormat::Json) => spells(s, "json"@) && !spells(s, "text"@) && !spells(s, "txt"@),
        Err(text) => !spells(s, "text"@) && !spells(s, "txt"@) && !spells(s, "json"@) && text@
            == "Invalid output format: "@ + s,
    }
}

fn spells_word(chars: &Vec<char>, word: &str) -> (same: bool)
    ensures
        same == spells(chars@, word@),
{
    let letters = chars_of(word);
    if chars.len() != letters.len() {
        return false;
    }
    let mut i: usize = 0;
    while i < chars.len()
        invariant
            i <= chars@.len(),
            chars@.len() == letters@.len(),
            letters@ == word@,
            forall|k: int| 0 <= k < i ==> same_letter(chars@[k], letters@[k]),
        decreases chars@.len() - i,
    {
        let c = chars[i];
        let letter = letters[i];
        let code = c as u32;
        if !(c == letter || (65 <= code && code <= 90 && code + 32 == letter as u32)) {
            return false;
        }
        i += 1;
    }
    true
}

impl OutputFormat {
    /// Reads a format by its name: `text` or `txt`, or `json`, in any mix of
    /// cases.
    pub fn parse(s: &str) -> (r: Result<OutputFormat, String>)
        ensures
            names_format(s@, r),
    {
        let chars = chars_of(s);
        if spells_word(&chars, "text") || spells_word(&chars, "txt") {
            Ok(OutputFormat::Text)
        } else if spells_word(&chars, "json") {
            Ok(OutputFormat::Json)
        } else {
            let mut text = "Invalid output format: ".to_owned();
            text.append(s);
            Err(text)
        }
    }
}

impl std::str::FromStr for OutputFormat {
    type Err = String;

    /// Reads a format by its name, as `OutputFormat::parse` does.
    fn from_str(s: &str) -> (r: Result<OutputFormat, String>)
        ensures
            names_format(s@, r),
    {
        OutputFormat::parse(s)
    }
}

impl OutputFormatter {
    /// The form in which this formatter prints.
    pub closed spec fn format(&self) -> OutputFormat {
        self.format
    }

    /// A formatter that prints in the given form.
    pub fn new(format: OutputFormat) -> (formatter: OutputFormatter)
        ensures
            formatter.format() == format,
    {
        OutputFormatter { format }
    }

    /// The form in which this formatter prints.
    pub fn output_format(&self) -> (format: OutputFormat)
        ensures
            format == self.format(),
    {
        self.format
    }

    /// Chooses between the two renderings of a value: in text form what it
    /// displays as, in JSON form what it serializes to, or the serializer's
    /// error behind a heading.
    pub fn format_rendered(&self, text: String, json: Result<String, String>) -> (r: Result<
        String,
        String,
    >)
        ensures
            match self.format() {
                OutputFormat::Text => r == Result::<String, String>::Ok(text),
                OutputFormat::Json => match json {
                    Ok(pretty) => r == Result::<String, String>::Ok(pretty),
                    Err(error) => r matches Err(worded) && worded@
                        == "JSON serialization error: "@ + error@,
                },
            },
    {
        match self.format {
            OutputFormat::Text => Ok(text),
            OutputFormat::Json => match json {
                Ok(pretty) => Ok(pretty),
                Err(error) => {
                    let mut heading = "JSON serialization error: ".to_owned();
                    heading.append(error.as_str());
                    Err(heading)
                },
            },
        }
    }

    /// Words the message of an error: in text form behind `Error: `, in JSON
    /// form as the object with `error` set and the message, or the one-line
    /// object where the serializer hands back no text.
    pub fn format_error(&self, message: &str) -> (text: String)
        ensures
            self.format() is Text ==> text@ == "Error: "@ + message@,
            self.format() is Json ==> text@ == two_member_json(
                "error"@,
                true,
                "message"@,
                message@,
            ) || text@ == fallback_json("error"@, message@),
    {
        match self.format {
            OutputFormat::Text => {
                let mut text = "Error: ".to_owned();
                text.append(message);
                text
            },
            OutputFormat::Json => {
                let json = to_two_member_json("error", true, "message", message);
                json_or_fallback("error", message, json)
            },
        }
    }

    /// Words a message of success: in text form behind `Success: `, in JSON
    /// form as the object with `success` set and the message, or the
    /// one-line object where the serializer hands back no text.
    pub fn format_success(&self, message: &str) -> (text: String)
        ensures
            self.format() is Text ==> text@ == "Success: "@ + message@,
            self.format() is Json ==> text@ == two_member_json(
                "success"@,
                true,
                "message"@,
                message@,
            ) || text@ == fallback_json("success"@, message@),
    {
        match self.format {
            OutputFormat::Text => {
                let mut text = "Success: ".to_owned();
                text.append(message);
                text
            },
            OutputFormat::Json => {
                let json = to_two_member_json("success", true, "message", message);
                json_or_fallback("success", message, json)
            },
        }
    }
}

} // verus!
