//! Reading the service's metric text and process command lines.

use vstd::prelude::*;
use vstd::string::*;
use crate::text::{
    after_last_slash, after_last_slash_start, ends_with, find, find_spec, lemma_find_from_range, str_eq,
    trim, trimmed,
};

verus! {

/// A model file name without its `.gguf` extension.
pub open spec fn model_name_of(path: Seq<char>) -> Seq<char> {
    let file = after_last_slash(path);
    if file.len() >= 5 && file.subrange(file.len() - 5, file.len() as int) == ".gguf"@ {
        file.subrange(0, file.len() - 5)
    } else {
        file
    }
}

/// `s` up to its first space, or all of it.
pub open spec fn first_word(s: Seq<char>) -> Seq<char> {
    let e = find_spec(s, " "@);
    if e >= 0 { s.subrange(0, e) } else { s }
}

/// What a model-server command line says it serves: the model file named after
/// `--model `, else `Port N` for the port after `--port `.
pub open spec fn inferred_model(cmd: Seq<char>) -> Option<Seq<char>> {
    let m = find_spec(cmd, "--model "@);
    let p = find_spec(cmd, "--port "@);
    if m >= 0 {
        Some(model_name_of(first_word(cmd.subrange(m + "--model "@.len(), cmd.len() as int))))
    } else if p >= 0 {
        let rest = cmd.subrange(p + "--port "@.len(), cmd.len() as int);
        if find_spec(rest, " "@) >= 0 {
            Some("Port "@ + first_word(rest))
        } else if rest.len() > 0 {
            Some("Port "@ + trimmed(rest))
        } else {
            None
        }
    } else {
        None
    }
}

/// The part of `s` after the first occurrence of `pat`, if any.
fn after_match<'a>(s: &'a str, pat: &str) -> (r: Option<&'a str>)
    ensures
        match r {
            Some(rest) => find_spec(s@, pat@) >= 0
                && rest@ == s@.subrange(find_spec(s@, pat@) + pat@.len(), s@.len() as int),
            None => find_spec(s@, pat@) < 0,
        },
{
    let n = s.unicode_len();
    let m = pat.unicode_len();
    match find(s, pat) {
        Some(i) => {
            proof {
                lemma_find_from_range(s@, pat@, 0);
            }
            Some(s.substring_char(i + m, n))
        },
        None => None,
    }
}

/// `s` up to its first space.
fn first_word_of(s: &str) -> (r: &str)
    ensures
        r@ == first_word(s@),
{
    match find(s, " ") {
        Some(e) => {
            proof {
                lemma_find_from_range(s@, " "@, 0);
            }
            s.substring_char(0, e)
        },
        None => s,
    }
}

/// The model name a file path stands for.
fn model_name_from_path(path: &str) -> (r: String)
    ensures
        r@ == model_name_of(path@),
{
    let start = after_last_slash_start(path);
    let file = path.substring_char(start, path.unicode_len());
    if ends_with(file, ".gguf") {
        proof {
            reveal_strlit(".gguf");
        }
        file.substring_char(0, file.unicode_len() - 5).to_owned()
    } else {
        proof {
            reveal_strlit(".gguf");
        }
        file.to_owned()
    }
}

/// See `inferred_model`.
pub fn infer_model_from_command(cmd_line: &str) -> (r: Option<String>)
    ensures
        match inferred_model(cmd_line@) {
            Some(name) => r matches Some(s) && s@ == name,
            None => r is None,
        },
{
    if let Some(model_part) = after_match(cmd_line, "--model ") {
        let path = first_word_of(model_part);
        return Some(model_name_from_path(path));
    }
    if let Some(port_part) = after_match(cmd_line, "--port ") {
        let mut name = "Port ".to_owned();
        if find(port_part, " ").is_some() {
            name.append(first_word_of(port_part));
            return Some(name);
        } else if port_part.unicode_len() > 0 {
            name.append(trim(port_part));
            return Some(name);
        }
    }
    None
}

/// The metric name and the value text of a line of Prometheus text: nothing
/// for comments and blank lines, or a line without a space; labels in braces
/// are dropped from the name.
pub open spec fn metric_line_parts(line: Seq<char>) -> Option<(Seq<char>, Seq<char>)> {
    let sp = find_spec(line, " "@);
    if (line.len() > 0 && line[0] == '#') || trimmed(line).len() == 0 || sp < 0 {
        None
    } else {
        let metric = line.subrange(0, sp);
        let b = find_spec(metric, "{"@);
        Some((if b >= 0 { metric.subrange(0, b) } else { metric }, line.subrange(sp + 1, line.len() as int)))
    }
}

/// See `metric_line_parts`.
pub fn split_metric_line(line: &str) -> (r: Option<(String, String)>)
    ensures
        match metric_line_parts(line@) {
            Some((name, value)) => r matches Some(p) && p.0@ == name && p.1@ == value,
            None => r is None,
        },
{
    let n = line.unicode_len();
    if (n > 0 && line.get_char(0) == '#') || trim(line).unicode_len() == 0 {
        return None;
    }
    match find(line, " ") {
        None => None,
        Some(sp) => {
            proof {
                lemma_find_from_range(line@, " "@, 0);
                reveal_strlit(" ");
            }
            let metric = line.substring_char(0, sp);
            let value = line.substring_char(sp + 1, n);
            let name = match find(metric, "{") {
                Some(b) => {
                    proof {
                        lemma_find_from_range(metric@, "{"@, 0);
                    }
                    metric.substring_char(0, b)
                },
                None => metric,
            };
            Some((name.to_owned(), value.to_owned()))
        },
    }
}

/// The figure a server metric name feeds, by its key.
pub open spec fn metric_key_of(name: Seq<char>) -> Option<&'static str> {
    if name == "llamacpp:prompt_tokens_seconds"@ {
        Some("prompt_tokens_per_sec")
    } else if name == "llamacpp:predicted_tokens_seconds"@ {
        Some("predicted_tokens_per_sec")
    } else if name == "llamacpp:requests_processing"@ {
        Some("requests_processing")
    } else if name == "llamacpp:requests_deferred"@ {
        Some("requests_deferred")
    } else if name == "llamacpp:n_decode_total"@ {
        Some("n_decode_total")
    } else {
        None
    }
}

/// See `metric_key_of`.
pub fn metric_key(name: &str) -> (r: Option<&'static str>)
    ensures
        r == metric_key_of(name@),
{
    if str_eq(name, "llamacpp:prompt_tokens_seconds") {
        Some("prompt_tokens_per_sec")
    } else if str_eq(name, "llamacpp:predicted_tokens_seconds") {
        Some("predicted_tokens_per_sec")
    } else if str_eq(name, "llamacpp:requests_processing") {
        Some("requests_processing")
    } else if str_eq(name, "llamacpp:requests_deferred") {
        Some("requests_deferred")
    } else if str_eq(name, "llamacpp:n_decode_total") {
        Some("n_decode_total")
    } else {
        None
    }
}

} // verus!
