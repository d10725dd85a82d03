//! Translation bundles: one compiled Fluent resource bound to one locale.

use std::sync::Arc;

use fluent::bundle::FluentBundle;
use fluent::{FluentArgs, FluentResource};
use intl_memoizer::concurrent::IntlLangMemoizer;
use unic_langid::LanguageIdentifier;
use vstd::prelude::*;

verus! {

#[verifier::external_type_specification]
#[verifier::external_body]
pub struct ExFluentResource(FluentResource);

#[verifier::external_type_specification]
#[verifier::external_body]
pub struct ExIntlLangMemoizer(IntlLangMemoizer);

#[verifier::external_type_specification]
#[verifier::external_body]
#[verifier::reject_recursive_types(R)]
#[verifier::reject_recursive_types(M)]
pub struct ExFluentBundle<R, M>(FluentBundle<R, M>);

/// A Fluent bundle that is safe to share between threads.
pub type CompiledBundle = FluentBundle<FluentResource, IntlLangMemoizer>;

/// Named arguments of a message, in the order they were given.
pub type TextArgs = Vec<(String, String)>;

/// The canonical form of a language tag, or `None` where the text is not a
/// well-formed tag.
pub uninterp spec fn canonical_tag(s: Seq<char>) -> Option<Seq<char>>;

/// Whether a text parses as a Fluent resource without any error.
pub uninterp spec fn resource_parses(source: Seq<char>) -> bool;

/// What formatting message `id` with `args` gives in the bundle compiled from
/// `source` for `locale`: `None` where the message is missing or has no value,
/// else the text and the descriptions of the formatting errors.
pub uninterp spec fn formatted(
    source: Seq<char>,
    locale: Seq<char>,
    id: Seq<char>,
    args: Option<Seq<(Seq<char>, Seq<char>)>>,
) -> Option<(Seq<char>, Seq<Seq<char>>)>;

/// The tag of the locale that every store must hold: `en-US`.
pub open spec fn default_tag() -> Seq<char> {
    seq!['e', 'n', '-', 'U', 'S']
}

/// The model of a list of named arguments.
pub open spec fn args_view(args: Option<TextArgs>) -> Option<Seq<(Seq<char>, Seq<char>)>> {
    match args {
        Some(v) => Some(v@.map_values(|p: (String, String)| (p.0@, p.1@))),
        None => None,
    }
}

/// An ASCII hex digit.
pub open spec fn is_hex(c: char) -> bool {
    ('0' <= c && c <= '9') || ('a' <= c && c <= 'f') || ('A' <= c && c <= 'F')
}

/// An ASCII decimal digit.
pub open spec fn is_digit(c: char) -> bool {
    '0' <= c && c <= '9'
}

/// Space, tab or a line break.
pub open spec fn is_blank(c: char) -> bool {
    c == ' ' || c == '\t' || c == '\n' || c == '\r'
}

/// A `\u` or `\U` escape that starts at `i` and stops, before its last hex
/// digit, at the non-ASCII character `k`.
pub open spec fn short_escape_at(s: Seq<char>, i: int, k: int) -> bool {
    &&& 0 <= i
    &&& i + 2 <= k < i + 8
    &&& k < s.len()
    &&& s[i] == '\\'
    &&& (s[i + 1] == 'u' || s[i + 1] == 'U')
    &&& s[k] > '\u{7f}'
    &&& forall|j: int| i + 2 <= j < k ==> is_hex(#[trigger] s[j])
}

/// Where the run of blanks that starts at `i` ends.
pub open spec fn blank_run_end(s: Seq<char>, i: int) -> int
    decreases s.len() - i,
{
    if 0 <= i < s.len() && is_blank(s[i]) {
        blank_run_end(s, i + 1)
    } else {
        i
    }
}

/// Whether a literal, or another placeable, starts at `j`.
pub open spec fn opens_literal(s: Seq<char>, j: int) -> bool {
    0 <= j < s.len() && (s[j] == '{' || s[j] == '"' || is_digit(s[j]) || (s[j] == '-' && j + 1
        < s.len() && is_digit(s[j + 1])))
}

/// A brace at `i` that opens a placeable whose expression is a literal or a
/// placeable.
pub open spec fn literal_placeable_at(s: Seq<char>, i: int) -> bool {
    0 <= i < s.len() && s[i] == '{' && opens_literal(s, blank_run_end(s, i + 1))
}

/// Resource text that this library hands to Fluent: no unicode escape that
/// stops short at a non-ASCII character, and no placeable that holds a
/// literal or another placeable (Fluent can fail on those instead of
/// reporting an error).
pub open spec fn safe_resource_text(s: Seq<char>) -> bool {
    &&& forall|i: int| !literal_placeable_at(s, i)
    &&& forall|i: int, k: int| !(#[trigger] short_escape_at(s, i, k))
}

/// Resource text that compiles into a bundle.
pub open spec fn loadable(s: Seq<char>) -> bool {
    safe_resource_text(s) && resource_parses(s)
}

/// Relies on unic_langid's `LanguageIdentifier::from_str` and its `Display`:
/// the tag is parsed and written back in canonical form.
#[verifier::external_body]
fn parse_tag(s: &str) -> (r: Option<String>)
    ensures
        match r {
            Some(t) => canonical_tag(s@) == Some(t@),
            None => canonical_tag(s@) is None,
        },
{
    s.parse::<LanguageIdentifier>().ok().map(|id| id.to_string())
}

/// The canonical form of a language tag, or `None` where `s` is not one.
pub fn canonical_form(s: &str) -> (r: Option<String>)
    ensures
        match r {
            Some(t) => canonical_tag(s@) == Some(t@),
            None => canonical_tag(s@) is None,
        },
{
    parse_tag(s)
}

/// Relies on `str::chars`: the characters of `s`, in order.
#[verifier::external_body]
fn chars_of(s: &str) -> (r: Vec<char>)
    ensures
        r@ == s@,
{
    s.chars().collect()
}

/// Where the run of blanks that starts at `i` ends.
fn skip_blanks(s: &Vec<char>, i: usize) -> (r: usize)
    requires
        i <= s@.len(),
    ensures
        r as int == blank_run_end(s@, i as int),
        r <= s@.len(),
{
    let mut j = i;
    while j < s.len() && (s[j] == ' ' || s[j] == '\t' || s[j] == '\n' || s[j] == '\r')
        invariant
            i <= j <= s@.len(),
            blank_run_end(s@, i as int) == blank_run_end(s@, j as int),
        decreases s@.len() - j,
    {
        j += 1;
    }
    j
}

/// Whether a short unicode escape starts at `i`.
fn short_escape_from(s: &Vec<char>, i: usize) -> (r: bool)
    requires
        i < s@.len(),
    ensures
        r == exists|k: int| short_escape_at(s@, i as int, k),
{
    if s[i] != '\\' || s.len() - i < 2 || (s[i + 1] != 'u' && s[i + 1] != 'U') {
        return false;
    }
    let mut j = i + 2;
    while j < s.len() && j - i < 8 && (('0' <= s[j] && s[j] <= '9') || ('a' <= s[j] && s[j] <= 'f')
        || ('A' <= s[j] && s[j] <= 'F'))
        invariant
            i + 2 <= j <= s@.len(),
            j <= i + 8,
            forall|m: int| i + 2 <= m < j ==> is_hex(#[trigger] s@[m]),
        decreases s@.len() - j,
    {
        j += 1;
    }
    let found = j < s.len() && j - i < 8 && s[j] > '\u{7f}';
    if found {
        assert(short_escape_at(s@, i as int, j as int));
    } else {
        assert forall|k: int| !short_escape_at(s@, i as int, k) by {
            if short_escape_at(s@, i as int, k) {
                if k < j {
                    assert(is_hex(s@[k]));
                } else if k > j {
                    assert(is_hex(s@[j as int]));
                }
            }
        }
    }
    found
}

/// Whether `source` is safe to hand to Fluent.
pub fn is_safe_resource_text(source: &str) -> (r: bool)
    ensures
        r == safe_resource_text(source@),
{
    let s = chars_of(source);
    let mut i: usize = 0;
    while i < s.len()
        invariant
            s@ == source@,
            i <= s@.len(),
            forall|m: int| 0 <= m < i ==> !literal_placeable_at(s@, m),
            forall|m: int, k: int| 0 <= m < i ==> !(#[trigger] short_escape_at(s@, m, k)),
        decreases s@.len() - i,
    {
        if s[i] == '{' {
            let j = skip_blanks(&s, i + 1);
            if j < s.len() && (s[j] == '{' || s[j] == '"' || ('0' <= s[j] && s[j] <= '9') || (s[j]
                == '-' && j + 1 < s.len() && '0' <= s[j + 1] && s[j + 1] <= '9')) {
                assert(literal_placeable_at(s@, i as int));
                return false;
            }
        }
        if short_escape_from(&s, i) {
            return false;
        }
        i += 1;
    }
    assert forall|m: int, k: int| !(#[trigger] short_escape_at(s@, m, k)) by {
        if short_escape_at(s@, m, k) {
            assert(0 <= m < i);
        }
    }
    assert forall|m: int| !literal_placeable_at(s@, m) by {
        if literal_placeable_at(s@, m) {
            assert(0 <= m < i);
        }
    }
    true
}

/// Relies on fluent's `FluentResource::try_new`, which returns `Ok` exactly
/// when the text parses without any error. It is handed safe text only: the
/// parser can fail on a short unicode escape before a non-ASCII character.
#[verifier::external_body]
fn parse_resource(source: String) -> (r: Option<FluentResource>)
    requires
        safe_resource_text(source@),
    ensures
        r is Some == resource_parses(source@),
{
    FluentResource::try_new(source).ok()
}

/// Relies on fluent's `FluentBundle::new_concurrent`, `set_use_isolating` and
/// `add_resource_overriding`: a bundle for the one locale named by `tag` that
/// holds `resource` and writes arguments without isolation marks.
#[verifier::external_body]
fn compile_resource(tag: &str, resource: FluentResource) -> (r: Arc<CompiledBundle>)
    requires
        canonical_tag(tag@) is Some,
{
    let id: LanguageIdentifier = tag.parse().unwrap_or_default();
    let mut compiled = FluentBundle::new_concurrent(vec![id]);
    compiled.set_use_isolating(false);
    compiled.add_resource_overriding(resource);
    Arc::new(compiled)
}

/// The compiled translations of one locale. Its compiled form is only ever
/// built from `source` for `locale`, so formatting is a function of the two.
pub struct Bundle {
    locale: String,
    source: String,
    compiled: Arc<CompiledBundle>,
}

impl Bundle {
    /// The text a bundle was compiled from is safe to format.
    #[verifier::type_invariant]
    spec fn inv(&self) -> bool {
        safe_resource_text(self.source@)
    }

    /// The tag of the locale this bundle serves.
    pub closed spec fn tag(&self) -> Seq<char> {
        self.locale@
    }

    /// The resource text this bundle was compiled from.
    pub closed spec fn text(&self) -> Seq<char> {
        self.source@
    }

    /// Compiles `source` for the locale named `tag`: `None` where `tag` is not
    /// a language tag, or `source` is not loadable resource text.
    pub fn compile(tag: &str, source: String) -> (r: Option<Bundle>)
        ensures
            r is Some <==> canonical_tag(tag@) is Some && loadable(source@),
            r matches Some(b) ==> Some(b.tag()) == canonical_tag(tag@) && b.text() == source@,
    {
        let locale = match canonical_form(tag) {
            Some(t) => t,
            None => return None,
        };
        if !is_safe_resource_text(source.as_str()) {
            return None;
        }
        let kept = source.clone();
        match parse_resource(source) {
            Some(resource) => {
                let compiled = compile_resource(tag, resource);
                Some(Bundle { locale, source: kept, compiled })
            },
            None => None,
        }
    }

    /// The tag of the locale this bundle serves.
    pub fn locale(&self) -> (r: &str)
        ensures
            r@ == self.tag(),
    {
        self.locale.as_str()
    }

    pub(crate) fn tag_string(&self) -> (r: &String)
        ensures
            r@ == self.tag(),
    {
        &self.locale
    }

    /// Formats message `id` with `args`: `None` where the bundle has no such
    /// message or it has no value, else the text and the formatting errors.
    pub fn format(&self, id: &str, args: &Option<TextArgs>) -> (r: Option<(String, Vec<String>)>)
        ensures
            formatted(self.text(), self.tag(), id@, args_view(*args)) == match r {
                Some(p) => Some((p.0@, p.1@.map_values(|e: String| e@))),
                None => None,
            },
    {
        proof {
            use_type_invariant(self);
        }
        format_message(self, id, args)
    }
}

/// Relies on fluent's `FluentBundle::get_message`, `FluentMessage::value` and
/// `FluentBundle::format_pattern`, with the arguments collected into
/// `FluentArgs` and the errors written by `FluentError`'s `Display`: what formatting gives depends on the bundle's resource and
/// locale, the message and its arguments alone. It is handed bundles of safe
/// text only: past its limit on placeables, Fluent can fail on a placeable
/// that holds a literal or another placeable.
#[verifier::external_body]
fn format_message(bundle: &Bundle, id: &str, args: &Option<TextArgs>) -> (r: Option<(String, Vec<String>)>)
    requires
        safe_resource_text(bundle.text()),
    ensures
        formatted(bundle.text(), bundle.tag(), id@, args_view(*args)) == match r {
            Some(p) => Some((p.0@, p.1@.map_values(|e: String| e@))),
            None => None,
        },
{
    let pattern = bundle.compiled.get_message(id)?.value()?;
    let fluent_args: Option<FluentArgs> = args.as_ref().map(|pairs| {
        pairs.iter().map(|(k, v)| (k.as_str(), v.as_str())).collect()
    });
    let mut errors = Vec::new();
    let text = bundle.compiled.format_pattern(pattern, fluent_args.as_ref(), &mut errors);
    Some((text.into_owned(), errors.iter().map(|e| e.to_string()).collect()))
}

} // verus!
