//! Names: the file that a response is written to, and the directory segment
//! of a project.

use crate::text::{
    before, contains, lemma_without_absent, lemma_without_brings_nothing, lemma_without_leading,
    lemma_without_leaves_none, lemma_without_trailing, occurs, occurs_at, strip, up_to, without,
};
use vstd::prelude::*;
use vstd::string::StringExecFns;

verus! {

/// The directory segment of a project: its title up to the first full stop,
/// so that a title that reads like a sentence gives a short name.
pub fn trim_title(title: &str) -> (segment: String)
    ensures
        segment@ == before(title@, '.'),
{
    up_to(title, '.')
}

/// `dir` and `name` with a slash between them.
pub open spec fn joined(dir: Seq<char>, name: Seq<char>) -> Seq<char> {
    dir + "/"@ + name
}

/// The path of `name` inside `dir`.
pub fn join(dir: &str, name: &str) -> (path: String)
    ensures
        path@ == joined(dir@, name@),
{
    let mut path = String::from_str(dir);
    path.append("/");
    path.append(name);
    path
}

/// The pattern that finds the file name token in a content-disposition
/// header: the word `filename=`, a run of characters that are neither a
/// semicolon nor a line break, and the semicolon that ends the run. A
/// parameter that follows the file name is so left out of the token.
pub const FILENAME_PATTERN: &'static str = "filename=[^;\\n]*;";

/// `regex::Error`, the reason for which a pattern was refused. Nothing of
/// what it holds is looked at.
#[verifier::external_type_specification]
#[verifier::external_body]
pub struct ExPatternError(regex::Error);

/// Whether the `regex` crate takes `pattern` for a regular expression: it
/// refuses one that is not well formed, and one that is too large for its
/// limit.
pub uninterp spec fn compiles(pattern: Seq<char>) -> bool;

/// The first match of the regular expression `pattern` in `text`, as the
/// `regex` crate finds it, where the pattern compiles: the matched text, or
/// none where nothing matches.
pub uninterp spec fn first_match(pattern: Seq<char>, text: Seq<char>) -> Option<Seq<char>>;

/// `regex::Regex::new` compiles the pattern or refuses it with an error, and
/// which of the two depends on the pattern alone. `Regex::captures` then
/// searches the text for the leftmost match and gives it as group 0, or
/// gives nothing where the text holds no match. What is matched depends on
/// the pattern and the text alone. Nothing is claimed about which patterns
/// compile, nor about what a pattern matches.
#[verifier::external_body]
fn search(pattern: &str, text: &str) -> (found: Result<Option<String>, regex::Error>)
    ensures
        found is Ok <==> compiles(pattern@),
        found matches Ok(Some(token)) ==> first_match(pattern@, text@) == Some(token@),
        found matches Ok(None) ==> first_match(pattern@, text@) is None,
{
    let compiled = match regex::Regex::new(pattern) {
        Ok(compiled) => compiled,
        Err(refused) => return Err(refused),
    };
    match compiled.captures(text) {
        Some(groups) => Ok(Some(groups[0].to_string())),
        None => Ok(None),
    }
}

/// The file name that a matched token stands for. Three things are taken
/// out of the token, one after the other: the word `filename=`, then every
/// semicolon, then every double quote. Where what is left has no full stop,
/// `.pdf` comes behind it. Nothing is taken out twice: a word `filename=`
/// that only comes together when a quote inside it has gone stays.
pub open spec fn name_of_token(token: Seq<char>) -> Seq<char> {
    let bare = without(without(without(token, "filename="@), ";"@), "\""@);
    if occurs(bare, "."@) {
        bare
    } else {
        bare + ".pdf"@
    }
}

/// Whatever the token, the name that it stands for has an extension and is
/// free of quoting: it holds a full stop, and neither a double quote nor a
/// semicolon.
pub proof fn lemma_name_is_clean(token: Seq<char>)
    ensures
        occurs(name_of_token(token), "."@),
        !name_of_token(token).contains('"'),
        !name_of_token(token).contains(';'),
{
    reveal_strlit(";");
    reveal_strlit("\"");
    reveal_strlit(".");
    reveal_strlit(".pdf");
    let unworded = without(token, "filename="@);
    let unterminated = without(unworded, ";"@);
    let bare = without(unterminated, "\""@);
    assert(";"@ =~= seq![';']);
    assert("\""@ =~= seq!['"']);
    lemma_without_leaves_none(unworded, ';');
    lemma_without_leaves_none(unterminated, '"');
    if bare.contains(';') {
        lemma_without_brings_nothing(unterminated, "\""@, ';');
    }
    let name = name_of_token(token);
    if !occurs(bare, "."@) {
        assert(occurs_at(name, "."@, bare.len() as int)) by {
            assert(name.subrange(bare.len() as int, bare.len() as int + 1) =~= "."@);
        }
        assert forall|i: int| 0 <= i < name.len() implies name[i] != '"' && name[i] != ';' by {
            if i < bare.len() {
                assert(bare.contains(bare[i]));
            }
        }
    }
}

/// The name of a plain token. A token is the word `filename=`, a value and
/// a semicolon. Where the value holds no semicolon and not the word itself,
/// the name is the value without its double quotes, with `.pdf` behind it
/// where that has no full stop.
pub proof fn lemma_name_of_plain_token(value: Seq<char>)
    requires
        !value.contains(';'),
        !occurs(value, "filename="@),
    ensures
        name_of_token("filename="@ + value + ";"@) == if occurs(without(value, "\""@), "."@) {
            without(value, "\""@)
        } else {
            without(value, "\""@) + ".pdf"@
        },
{
    reveal_strlit(";");
    reveal_strlit("filename=");
    let word = "filename="@;
    let rest = value + ";"@;
    assert(";"@ =~= seq![';']);
    assert(word + value + ";"@ =~= word + rest);
    lemma_without_leading(word, rest);
    assert forall|at: int| !occurs_at(rest, word, at) by {
        if occurs_at(rest, word, at) {
            if at + word.len() <= value.len() {
                assert(value.subrange(at, at + word.len()) =~= rest.subrange(at, at + word.len()));
                assert(occurs_at(value, word, at));
            } else {
                let k = value.len() - at;
                assert(rest.subrange(at, at + word.len())[k] == ';');
            }
        }
    }
    lemma_without_absent(rest, word);
    lemma_without_trailing(value, ';');
}

/// The file name that a matched token stands for.
pub fn name_from_token(token: &str) -> (name: String)
    ensures
        name@ == name_of_token(token@),
{
    let unworded = strip(token, "filename=");
    let unterminated = strip(unworded.as_str(), ";");
    let mut name = strip(unterminated.as_str(), "\"");
    if !contains(name.as_str(), ".") {
        name.append(".pdf");
    }
    name
}

/// Why a header gave no file name.
#[derive(Clone, Copy, Debug, PartialEq, Eq, Structural)]
pub enum NameError {
    /// The header is no valid UTF-8.
    NotText,
    /// The header holds nothing that the pattern matches.
    NoFileName,
    /// The pattern was refused.
    PatternRefused,
}

/// The file name for the outcome of a search: the name that the token
/// stands for where one was found, and the reason where none was.
pub fn name_from_search(found: Result<Option<String>, regex::Error>) -> (name: Result<
    String,
    NameError,
>)
    ensures
        match found {
            Ok(Some(token)) => name matches Ok(text) && text@ == name_of_token(token@),
            Ok(None) => name == Err::<String, NameError>(NameError::NoFileName),
            Err(_) => name == Err::<String, NameError>(NameError::PatternRefused),
        },
{
    match found {
        Ok(Some(token)) => Ok(name_from_token(token.as_str())),
        Ok(None) => Err(NameError::NoFileName),
        Err(_) => Err(NameError::PatternRefused),
    }
}

/// What a content-disposition header gives. Where [`FILENAME_PATTERN`]
/// compiles, a header in which it matches gives the name that the first
/// match stands for, and a header in which it does not match gives no name.
/// Where the pattern is refused, no header gives a name.
pub open spec fn name_of_header(header: Seq<char>) -> Result<Seq<char>, NameError> {
    if !compiles(FILENAME_PATTERN@) {
        Err(NameError::PatternRefused)
    } else {
        match first_match(FILENAME_PATTERN@, header) {
            Some(token) => Ok(name_of_token(token)),
            None => Err(NameError::NoFileName),
        }
    }
}

/// The file name that a content-disposition header gives, or the reason for
/// which it gives none.
pub fn name_from_header(header: &str) -> (name: Result<String, NameError>)
    ensures
        match name_of_header(header@) {
            Ok(expected) => name matches Ok(text) && text@ == expected,
            Err(why) => name == Err::<String, NameError>(why),
        },
{
    name_from_search(search(FILENAME_PATTERN, header))
}

/// A lower-case hexadecimal digit.
pub open spec fn is_lower_hex(c: char) -> bool {
    ('0' <= c && c <= '9') || ('a' <= c && c <= 'f')
}

/// The hyphenated form of an identifier: 36 characters, hyphens at four
/// fixed places and lower-case hexadecimal digits everywhere else.
pub open spec fn is_hyphenated_id(id: Seq<char>) -> bool {
    &&& id.len() == 36
    &&& forall|i: int|
        0 <= i < 36 ==> if i == 8 || i == 13 || i == 18 || i == 23 {
            #[trigger] id[i] == '-'
        } else {
            is_lower_hex(id[i])
        }
}

/// `uuid::Uuid::new_v4` draws a random identifier from the operating system's
/// generator, and its `to_string` writes it in hyphenated lower-case form.
/// Only that form is claimed: two calls need not agree. The call aborts
/// where the operating system has no random bytes to give.
#[verifier::external_body]
fn random_id() -> (id: String)
    ensures
        is_hyphenated_id(id@),
{
    uuid::Uuid::new_v4().to_string()
}

/// The name of a text file with this stem.
pub fn text_name(stem: &str) -> (name: String)
    ensures
        name@ == stem@ + ".txt"@,
{
    let mut name = String::from_str(stem);
    name.append(".txt");
    name
}

/// A name for a file that came without one: a fresh random identifier with
/// `.txt` behind it.
pub fn invented_name() -> (name: String)
    ensures
        exists|id: Seq<char>| is_hyphenated_id(id) && name@ == id + ".txt"@,
{
    let id = random_id();
    text_name(id.as_str())
}

} // verus!
