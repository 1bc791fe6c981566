//! Validation of untrusted input: subscription forms and newsletter payloads.
use vstd::prelude::*;

verus! {

/// The input field that a validation error is about.
#[derive(PartialEq, Eq, Structural, Clone, Copy, Debug)]
pub enum Field {
    Email,
    Name,
    Title,
    Content,
    Text,
    Html,
}

/// Why raw input was rejected, naming the offending field.
#[derive(PartialEq, Eq, Structural, Clone, Copy, Debug)]
pub enum InputError {
    Missing(Field),
    Empty(Field),
    Malformed(Field),
}

/// The characters with the Unicode `White_Space` property, which `str::trim` removes.
pub open spec fn is_blank_char(c: char) -> bool {
    ||| c == ' '
    ||| ('\t' <= c && c <= '\r')
    ||| c == '\u{85}'
    ||| c == '\u{a0}'
    ||| c == '\u{1680}'
    ||| ('\u{2000}' <= c && c <= '\u{200a}')
    ||| c == '\u{2028}'
    ||| c == '\u{2029}'
    ||| c == '\u{202f}'
    ||| c == '\u{205f}'
    ||| c == '\u{3000}'
}

/// The C0 and C1 control characters and DEL.
pub open spec fn is_control_char(c: char) -> bool {
    c < ' ' || ('\u{7f}' <= c && c <= '\u{9f}')
}

/// A name is valid when something is left of it after trimming whitespace.
pub open spec fn valid_name(s: Seq<char>) -> bool {
    exists|i: int| 0 <= i < s.len() && !is_blank_char(#[trigger] s[i])
}

/// The part after the `@`: labels separated by dots, none of them empty, and
/// at least two of them.
pub open spec fn valid_domain(d: Seq<char>) -> bool {
    &&& d.len() > 0
    &&& d[0] != '.'
    &&& d[d.len() - 1] != '.'
    &&& exists|i: int| 0 < i < d.len() - 1 && #[trigger] d[i] == '.'
    &&& forall|i: int| 0 <= i < d.len() - 1 ==> !(#[trigger] d[i] == '.' && d[i + 1] == '.')
}

/// `local@domain`: no whitespace or control characters, exactly one `@`, a
/// non-empty local part, a valid domain.
pub open spec fn valid_email(s: Seq<char>) -> bool {
    &&& forall|i: int| 0 <= i < s.len() ==> !is_blank_char(#[trigger] s[i]) && !is_control_char(s[i])
    &&& exists|a: int|
        #![trigger s[a]]
        0 < a < s.len() && s[a] == '@' && valid_domain(s.skip(a + 1)) && forall|i: int|
            0 <= i < s.len() && i != a ==> #[trigger] s[i] != '@'
}

fn is_blank(c: char) -> (r: bool)
    ensures
        r == is_blank_char(c),
{
    c == ' ' || ('\t' <= c && c <= '\r') || c == '\u{85}' || c == '\u{a0}' || c == '\u{1680}' || ('\u{2000}' <= c
        && c <= '\u{200a}') || c == '\u{2028}' || c == '\u{2029}' || c == '\u{202f}' || c == '\u{205f}' || c
        == '\u{3000}'
}

fn is_control(c: char) -> (r: bool)
    ensures
        r == is_control_char(c),
{
    c < ' ' || ('\u{7f}' <= c && c <= '\u{9f}')
}

pub fn is_valid_name(s: &str) -> (r: bool)
    ensures
        r == valid_name(s@),
{
    let n = s.unicode_len();
    let mut i: usize = 0;
    while i < n
        invariant
            n == s@.len(),
            i <= n,
            forall|j: int| 0 <= j < i ==> is_blank_char(#[trigger] s@[j]),
        decreases n - i,
    {
        if !is_blank(s.get_char(i)) {
            return true;
        }
        i += 1;
    }
    false
}

pub fn is_valid_email(s: &str) -> (r: bool)
    ensures
        r == valid_email(s@),
{
    let n = s.unicode_len();
    let mut at: usize = n;
    let mut i: usize = 0;
    while i < n
        invariant
            n == s@.len(),
            i <= n,
            forall|j: int| 0 <= j < i ==> !is_blank_char(#[trigger] s@[j]) && !is_control_char(s@[j]),
            at == n ==> forall|j: int| 0 <= j < i ==> #[trigger] s@[j] != '@',
            at < n ==> at < i && s@[at as int] == '@' && forall|j: int|
                0 <= j < i && j != at ==> #[trigger] s@[j] != '@',
            at <= n,
        decreases n - i,
    {
        let c = s.get_char(i);
        if is_blank(c) || is_control(c) {
            assert(!valid_email(s@));
            return false;
        }
        if c == '@' {
            if at < n {
                assert(s@[at as int] == '@' && s@[i as int] == '@');
                return false;
            }
            at = i;
        }
        i += 1;
    }
    if at == n || at == 0 || at + 1 >= n {
        return false;
    }
    let ghost d = s@.skip(at + 1);
    assert(valid_email(s@) == valid_domain(d)) by {
        if valid_email(s@) {
            let a = choose|a: int|
                #![trigger s@[a]]
                0 < a < s@.len() && s@[a] == '@' && valid_domain(s@.skip(a + 1)) && forall|i: int|
                    0 <= i < s@.len() && i != a ==> #[trigger] s@[i] != '@';
            assert(a == at);
        }
        if valid_domain(d) {
            assert(s@[at as int] == '@');
        }
    }
    if s.get_char(at + 1) == '.' || s.get_char(n - 1) == '.' {
        return false;
    }
    assert(d[0] == s@[at + 1] && d[d.len() - 1] == s@[n - 1]);
    if at + 2 >= n {
        return false;
    }
    let mut dot = false;
    let mut k: usize = at + 2;
    while k < n - 1
        invariant
            n == s@.len(),
            at + 2 <= k,
            k <= n - 1,
            at + 2 <= n,
            d == s@.skip(at + 1),
            d.len() == n - at - 1,
            d[0] != '.',
            d[d.len() - 1] != '.',
            valid_email(s@) == valid_domain(d),
            forall|j: int| 0 <= j < k - at - 2 ==> !(#[trigger] d[j] == '.' && d[j + 1] == '.'),
            dot ==> exists|j: int| 0 < j < d.len() - 1 && #[trigger] d[j] == '.',
            !dot ==> forall|j: int| 0 < j < k - at - 1 ==> #[trigger] d[j] != '.',
        decreases n - k,
    {
        assert(d[k - at - 1] == s@[k as int] && d[k - at - 2] == s@[k - 1]);
        if s.get_char(k) == '.' {
            if s.get_char(k - 1) == '.' {
                return false;
            }
            dot = true;
        }
        k += 1;
    }
    assert forall|j: int| 0 <= j < d.len() - 1 implies !(#[trigger] d[j] == '.' && d[j + 1] == '.') by {
        if j == d.len() - 2 {
            assert(d[j + 1] != '.');
        }
    }
    dot
}

/// A subscription request whose fields passed validation.
pub struct NewSubscriber {
    pub email: String,
    pub name: String,
}

pub open spec fn spec_subscription_error(email: Option<Seq<char>>, name: Option<Seq<char>>) -> Option<InputError> {
    match (name, email) {
        (None, _) => Some(InputError::Missing(Field::Name)),
        (Some(n), _) if n.len() == 0 => Some(InputError::Empty(Field::Name)),
        (Some(n), _) if !valid_name(n) => Some(InputError::Malformed(Field::Name)),
        (_, None) => Some(InputError::Missing(Field::Email)),
        (_, Some(e)) if e.len() == 0 => Some(InputError::Empty(Field::Email)),
        (_, Some(e)) if !valid_email(e) => Some(InputError::Malformed(Field::Email)),
        _ => None,
    }
}

pub open spec fn opt_view(o: Option<String>) -> Option<Seq<char>> {
    match o {
        Some(s) => Some(s@),
        None => None,
    }
}

/// Checks the two fields of a subscription form; the name is checked first.
pub fn parse_subscription(email: Option<String>, name: Option<String>) -> (r: Result<NewSubscriber, InputError>)
    ensures
        match r {
            Ok(s) => spec_subscription_error(opt_view(email), opt_view(name)).is_none()
                && s.email@ == email.unwrap()@ && s.name@ == name.unwrap()@,
            Err(e) => spec_subscription_error(opt_view(email), opt_view(name)) == Some(e),
        },
{
    let name = match name {
        None => return Err(InputError::Missing(Field::Name)),
        Some(n) => n,
    };
    if name.unicode_len() == 0 {
        return Err(InputError::Empty(Field::Name));
    }
    if !is_valid_name(name.as_str()) {
        return Err(InputError::Malformed(Field::Name));
    }
    let email = match email {
        None => return Err(InputError::Missing(Field::Email)),
        Some(e) => e,
    };
    if email.unicode_len() == 0 {
        return Err(InputError::Empty(Field::Email));
    }
    if !is_valid_email(email.as_str()) {
        return Err(InputError::Malformed(Field::Email));
    }
    Ok(NewSubscriber { email, name })
}

/// The `content` object of a newsletter payload, as it arrived.
pub struct RawContent {
    pub text: Option<String>,
    pub html: Option<String>,
}

/// A newsletter payload as it arrived: every field may be absent.
pub struct RawNewsletter {
    pub title: Option<String>,
    pub content: Option<RawContent>,
}

/// A newsletter issue whose fields are all present and non-empty.
pub struct Newsletter {
    pub title: String,
    pub text: String,
    pub html: String,
}

pub open spec fn present_field_error(v: Option<Seq<char>>, f: Field) -> Option<InputError> {
    match v {
        None => Some(InputError::Missing(f)),
        Some(s) => if s.len() == 0 {
            Some(InputError::Empty(f))
        } else {
            None
        },
    }
}

/// The first problem with a newsletter payload, in the order title, content, text, html.
pub open spec fn spec_newsletter_error(raw: RawNewsletter) -> Option<InputError> {
    if present_field_error(opt_view(raw.title), Field::Title).is_some() {
        present_field_error(opt_view(raw.title), Field::Title)
    } else if raw.content.is_none() {
        Some(InputError::Missing(Field::Content))
    } else if present_field_error(opt_view(raw.content.unwrap().text), Field::Text).is_some() {
        present_field_error(opt_view(raw.content.unwrap().text), Field::Text)
    } else {
        present_field_error(opt_view(raw.content.unwrap().html), Field::Html)
    }
}

fn present_field(v: Option<String>, f: Field) -> (r: Result<String, InputError>)
    ensures
        match r {
            Ok(s) => present_field_error(opt_view(v), f).is_none() && s@ == v.unwrap()@,
            Err(e) => present_field_error(opt_view(v), f) == Some(e),
        },
{
    match v {
        None => Err(InputError::Missing(f)),
        Some(s) => if s.unicode_len() == 0 {
            Err(InputError::Empty(f))
        } else {
            Ok(s)
        },
    }
}

/// Checks a newsletter payload; every field must be present and non-empty.
pub fn parse_newsletter(raw: RawNewsletter) -> (r: Result<Newsletter, InputError>)
    ensures
        match r {
            Ok(n) => spec_newsletter_error(raw).is_none() && n.title@ == raw.title.unwrap()@
                && n.text@ == raw.content.unwrap().text.unwrap()@
                && n.html@ == raw.content.unwrap().html.unwrap()@,
            Err(e) => spec_newsletter_error(raw) == Some(e),
        },
{
    let RawNewsletter { title, content } = raw;
    let title = present_field(title, Field::Title)?;
    let content = match content {
        None => return Err(InputError::Missing(Field::Content)),
        Some(c) => c,
    };
    let RawContent { text, html } = content;
    let text = present_field(text, Field::Text)?;
    let html = present_field(html, Field::Html)?;
    Ok(Newsletter { title, text, html })
}

} // verus!
