//! `/play <url>`: queue a track.

use vstd::prelude::*;
use vstd::string::StringExecFns;

use crate::text::{same_text, trim, trim_ws};

verus! {

/// The value given for a command option.
pub enum OptionValue {
    /// A string option.
    Text(String),
    /// Any other kind of option.
    Other,
}

/// One option of a command invocation.
pub struct CommandOption {
    pub name: String,
    pub value: OptionValue,
}

/// Whether an option is a string option named `url`.
pub open spec fn is_url_option(o: CommandOption) -> bool {
    o.name@ == "url"@ && o.value is Text
}

/// The URL given with `/play`: the first string option named `url`, trimmed.
pub open spec fn extract_url_spec(options: Seq<CommandOption>) -> Option<Seq<char>>
    decreases options.len(),
{
    if options.len() == 0 {
        None
    } else if is_url_option(options[0]) {
        match options[0].value {
            OptionValue::Text(v) => Some(trim_ws(v@)),
            OptionValue::Other => None,
        }
    } else {
        extract_url_spec(options.drop_first())
    }
}

/// Finds the URL given with `/play` (see [`extract_url_spec`]).
pub fn extract_url(options: &Vec<CommandOption>) -> (url: Option<String>)
    ensures
        match url {
            Some(u) => extract_url_spec(options@) == Some(u@),
            None => extract_url_spec(options@) is None,
        },
{
    let mut i: usize = 0;
    assert(options@.skip(0) =~= options@);
    while i < options.len()
        invariant
            i <= options@.len(),
            extract_url_spec(options@.skip(i as int)) == extract_url_spec(options@),
        decreases options@.len() - i,
    {
        let o = &options[i];
        assert(options@.skip(i as int)[0] == *o);
        if same_text(o.name.as_str(), "url") {
            match &o.value {
                OptionValue::Text(v) => {
                    return Some(trim(v.as_str()));
                },
                OptionValue::Other => {},
            }
        }
        assert(options@.skip(i as int).drop_first() =~= options@.skip(i + 1));
        i = i + 1;
    }
    None
}

/// The reply to `/play`: that the URL is missing, or that it was queued.
pub open spec fn play_reply_spec(url: Option<Seq<char>>) -> Seq<char> {
    match url {
        Some(u) => "Queued <"@ + u + ">"@,
        None => "Missing URL"@,
    }
}

/// The reply to `/play` for the URL it was given (see [`play_reply_spec`]).
pub fn play_reply(url: &Option<String>) -> (reply: String)
    ensures
        reply@ == play_reply_spec(match url {
            Some(u) => Some(u@),
            None => None,
        }),
{
    match url {
        Some(u) => {
            let mut s = String::from_str("Queued <");
            s.append(u.as_str());
            s.append(">");
            s
        },
        None => String::from_str("Missing URL"),
    }
}

} // verus!
