//! Conversation titles, the search filter over conversations, and the
//! roles a stored message may have.

use vstd::prelude::*;
use crate::text;
use crate::text::{is_white_space, trim, trim_end, trim_start};

verus! {

broadcast use vstd::string::group_string_axioms;

/// The most characters a title keeps.
pub const TITLE_MAX_CHARS: usize = 80;

/// The title given to a conversation whose title is blank.
pub open spec fn default_title() -> Seq<char> {
    seq!['n', 'e', 'w', ' ', 'c', 'h', 'a', 't']
}

/// The title stored for `title`: trimmed, cut to its first 80 characters,
/// or `"new chat"` when nothing is left after trimming.
pub open spec fn cleaned_title(title: Seq<char>) -> Seq<char> {
    let t = trim(title);
    if t.len() == 0 {
        default_title()
    } else if t.len() <= TITLE_MAX_CHARS {
        t
    } else {
        t.take(TITLE_MAX_CHARS as int)
    }
}

fn default_title_string() -> (r: String)
    ensures
        r@ == default_title(),
{
    let d = vec!['n', 'e', 'w', ' ', 'c', 'h', 'a', 't'];
    assert(d@ =~= default_title());
    text::string_of(&d)
}

/// Cleans a conversation title before it is stored.
pub fn clean_title(title: String) -> (r: String)
    ensures
        r@ == cleaned_title(title@),
        0 < r@.len() <= TITLE_MAX_CHARS,
        !is_white_space(r@[0]),
{
    let trimmed = text::trim_str(title.as_str());
    if trimmed.len() == 0 {
        default_title_string()
    } else if trimmed.len() <= TITLE_MAX_CHARS {
        proof {
            lemma_trim_ends_not_white(title@);
        }
        text::string_of(&trimmed)
    } else {
        proof {
            lemma_trim_ends_not_white(title@);
        }
        let cut = text::sub_chars(&trimmed, 0, TITLE_MAX_CHARS);
        assert(cut@ =~= trimmed@.take(TITLE_MAX_CHARS as int));
        text::string_of(&cut)
    }
}

/// A trimmed sequence that is not empty starts and ends with characters that
/// are not white space.
pub proof fn lemma_trim_ends_not_white(s: Seq<char>)
    ensures
        trim(s).len() > 0 ==> !is_white_space(trim(s)[0]) && !is_white_space(
            trim(s).last(),
        ),
{
    lemma_trim_start_first(s);
    lemma_trim_end_shape(trim_start(s));
}

/// A text that starts and ends with characters that are not white space is
/// its own trimmed form.
pub proof fn lemma_trim_keeps_trimmed(s: Seq<char>)
    requires
        s.len() > 0,
        !is_white_space(s[0]),
        !is_white_space(s.last()),
    ensures
        trim(s) == s,
{
    assert(trim_start(s) == s);
    assert(trim_end(s) == s);
}

/// Cleaning a cleaned title changes nothing, unless the cut at 80
/// characters left white space at its end, which the second cleaning trims.
pub proof fn lemma_clean_title_idempotent(title: Seq<char>)
    requires
        !(trim(title).len() > TITLE_MAX_CHARS && is_white_space(trim(title)[TITLE_MAX_CHARS - 1])),
    ensures
        cleaned_title(cleaned_title(title)) == cleaned_title(title),
{
    let t = trim(title);
    lemma_trim_ends_not_white(title);
    if t.len() == 0 {
        lemma_trim_keeps_trimmed(default_title());
    } else if t.len() <= TITLE_MAX_CHARS {
        lemma_trim_keeps_trimmed(t);
    } else {
        let c = t.take(TITLE_MAX_CHARS as int);
        assert(c[0] == t[0]);
        assert(c.last() == t[TITLE_MAX_CHARS - 1]);
        lemma_trim_keeps_trimmed(c);
    }
}

proof fn lemma_trim_start_first(s: Seq<char>)
    ensures
        trim_start(s).len() > 0 ==> !is_white_space(trim_start(s)[0]),
    decreases s.len(),
{
    if s.len() > 0 && is_white_space(s[0]) {
        lemma_trim_start_first(s.drop_first());
    }
}

proof fn lemma_trim_end_shape(s: Seq<char>)
    ensures
        trim_end(s).len() <= s.len(),
        trim_end(s) =~= s.take(trim_end(s).len() as int),
        trim_end(s).len() > 0 ==> !is_white_space(trim_end(s).last()),
    decreases s.len(),
{
    if s.len() > 0 && is_white_space(s.last()) {
        lemma_trim_end_shape(s.drop_last());
        assert(s.drop_last().take(trim_end(s).len() as int) =~= s.take(trim_end(s).len() as int));
    }
}

/// The title of a new conversation: the given one cleaned, or `"new chat"`.
pub fn conversation_title(title: Option<String>) -> (r: String)
    ensures
        r@ == match title {
            Some(t) => cleaned_title(t@),
            None => default_title(),
        },
{
    match title {
        Some(t) => clean_title(t),
        None => default_title_string(),
    }
}

/// The text searched for: the trimmed search, or nothing.
pub open spec fn search_text(search: Option<String>) -> Seq<char> {
    match search {
        Some(s) => trim(s@),
        None => Seq::empty(),
    }
}

/// The filter of the conversation list: the trimmed search text, and the
/// SQL `LIKE` pattern that finds it anywhere in a title or a message.
pub fn search_terms(search: Option<String>) -> (r: (String, String))
    ensures
        r.0@ == search_text(search),
        r.1@ == seq!['%'] + search_text(search) + seq!['%'],
{
    let trimmed = match &search {
        Some(s) => text::trim_str(s.as_str()),
        None => Vec::new(),
    };
    let mut pattern: Vec<char> = Vec::new();
    pattern.push('%');
    let mut i: usize = 0;
    while i < trimmed.len()
        invariant
            i <= trimmed.len(),
            pattern@ == seq!['%'] + trimmed@.take(i as int),
        decreases trimmed.len() - i,
    {
        pattern.push(trimmed[i]);
        i += 1;
        assert(pattern@ =~= seq!['%'] + trimmed@.take(i as int));
    }
    pattern.push('%');
    assert(trimmed@.take(trimmed.len() as int) =~= trimmed@);
    assert(trimmed@ =~= search_text(search));
    (text::string_of(&trimmed), text::string_of(&pattern))
}

/// What `str::to_lowercase` gives for a text: its lower-case form under the
/// Unicode `Lowercase` mapping.
pub uninterp spec fn unicode_lowercase(s: Seq<char>) -> Seq<char>;

/// Calls `str::to_lowercase`; the result is named [`unicode_lowercase`].
#[verifier::external_body]
fn to_lowercase(s: &str) -> (r: String)
    ensures
        r@ == unicode_lowercase(s@),
{
    s.to_lowercase()
}

/// The roles a stored message may have.
pub open spec fn is_message_role(role: Seq<char>) -> bool {
    ||| role == seq!['u', 's', 'e', 'r']
    ||| role == seq!['a', 's', 's', 'i', 's', 't', 'a', 'n', 't']
    ||| role == seq!['s', 'y', 's', 't', 'e', 'm']
}

/// The error of a message with any other role.
pub open spec fn invalid_role_error() -> Seq<char> {
    "invalid message role"@
}

/// Accepts an already lower-cased role if it is one a message may have.
pub fn check_role(lowered: String) -> (r: Result<String, String>)
    ensures
        r matches Ok(s) ==> s@ == lowered@ && is_message_role(lowered@),
        r matches Err(e) ==> e@ == invalid_role_error() && !is_message_role(lowered@),
{
    let v = text::chars_of(lowered.as_str());
    let user = vec!['u', 's', 'e', 'r'];
    let assistant = vec!['a', 's', 's', 'i', 's', 't', 'a', 'n', 't'];
    let system = vec!['s', 'y', 's', 't', 'e', 'm'];
    if text::same_chars(&v, &user) || text::same_chars(&v, &assistant) || text::same_chars(&v, &system) {
        Ok(lowered)
    } else {
        Err("invalid message role".to_string())
    }
}

/// The role stored for a new message: trimmed and lower-cased, and refused
/// unless it is `user`, `assistant` or `system`.
pub fn normalize_role(role: &str) -> (r: Result<String, String>)
    ensures
        r matches Ok(s) ==> s@ == unicode_lowercase(trim(role@)) && is_message_role(s@),
        r matches Err(e) ==> e@ == invalid_role_error() && !is_message_role(
            unicode_lowercase(trim(role@)),
        ),
{
    let trimmed = text::string_of(&text::trim_str(role));
    let lowered = to_lowercase(trimmed.as_str());
    check_role(lowered)
}

} // verus!
