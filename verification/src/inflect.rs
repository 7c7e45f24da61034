//! Turning constant paths into file paths: `Foo::BarBaz` into
//! `foo/bar_baz`, the way autoloading looks for the file that defines a
//! constant. Acronyms can be registered so that `HTMLParser` style names
//! split where the acronym ends.

use regex::Captures;
use regex::Regex;
use vstd::prelude::*;
use crate::text::{all_ascii, ascii_lowercase, chars_of, lowercase, push_char, push_str, to_lowercase};

verus! {

broadcast use vstd::string::group_string_axioms;

#[verifier::external_type_specification]
#[verifier::external_body]
pub struct ExRegex(Regex);

/// A compiled regular expression together with the text it was compiled
/// from.
pub struct Pattern {
    source: String,
    compiled: Regex,
}

impl Pattern {
    /// The text the expression was compiled from.
    pub closed spec fn source(&self) -> Seq<char> {
        self.source@
    }
}

/// Whether the regex crate compiles `pattern`: it refuses malformed
/// patterns and those over its default size limit.
pub uninterp spec fn regex_compiles(pattern: Seq<char>) -> bool;

/// What `Regex::replace_all` of the regex crate gives for the expression
/// `pattern`, the text `text` and the replacement template `template`, in
/// which `${n}` stands for what group `n` matched.
pub uninterp spec fn regex_replaced(pattern: Seq<char>, text: Seq<char>, template: Seq<char>) -> Seq<char>;

/// What `Regex::replace_all` of the regex crate gives for the expression
/// `pattern` and the text `text` when each match is replaced by
/// `acronym_word` of its first two groups.
pub uninterp spec fn regex_acronyms_replaced(pattern: Seq<char>, text: Seq<char>) -> Seq<char>;

/// `Regex::new` of the regex crate: compiles `source`. The result is there
/// exactly when the crate accepts the pattern, which `regex_compiles`
/// names; which patterns those are is not stated.
#[verifier::external_body]
fn compile(source: &str) -> (r: Option<Pattern>)
    ensures
        r is Some <==> regex_compiles(source@),
        r matches Some(p) ==> p.source() == source@,
{
    match Regex::new(source) {
        Ok(compiled) => Some(Pattern { source: source.to_owned(), compiled }),
        Err(_) => None,
    }
}

/// `Regex::replace_all` of the regex crate with a replacement template:
/// every match of `p` in `text` replaced by `template` with its groups
/// filled in. The result is named by `regex_replaced`.
#[verifier::external_body]
fn replace_all(p: &Pattern, text: &str, template: &str) -> (r: String)
    ensures
        r@ == regex_replaced(p.source(), text@, template@),
{
    p.compiled.replace_all(text, template).into_owned()
}

/// `Regex::replace_all` of the regex crate with `acronym_word` as the
/// replacement: every match of `p` in `text` replaced by the word built
/// from its first two groups. The result is named by
/// `regex_acronyms_replaced`. The pattern is one built by `word_pattern`,
/// whose second group is not optional and so takes part in every match.
#[verifier::external_body]
fn replace_acronyms(p: &Pattern, text: &str) -> (r: String)
    requires
        exists|acronyms: Seq<Seq<char>>| acronyms.len() > 0 && p.source() == #[trigger] word_pattern(acronyms),
    ensures
        r@ == regex_acronyms_replaced(p.source(), text@),
{
    p.compiled.replace_all(text, |caps: &Captures| acronym_word(caps.get(1).map(|m| m.as_str()), &caps[2])).into_owned()
}

/// Whether `c` means something in the syntax of regular expressions.
pub open spec fn is_meta(c: char) -> bool {
    c == '\\' || c == '.' || c == '+' || c == '*' || c == '?' || c == '(' || c == ')'
        || c == '|' || c == '[' || c == ']' || c == '{' || c == '}' || c == '^' || c == '$'
        || c == '#' || c == '&' || c == '-' || c == '~'
}

/// `s` with a backslash before each character that means something in the
/// syntax of regular expressions.
pub open spec fn escaped(s: Seq<char>) -> Seq<char>
    decreases s.len(),
{
    if s.len() == 0 {
        seq![]
    } else {
        (if is_meta(s[0]) { seq!['\\', s[0]] } else { seq![s[0]] }) + escaped(s.skip(1))
    }
}

/// `regex::escape`: `s` with a backslash before each character that means
/// something in a regular expression (`\ . + * ? ( ) | [ ] { } ^ $ # & - ~`),
/// so that the result matches `s` literally.
#[verifier::external_body]
fn escape(s: &str) -> (r: String)
    ensures
        r@ == escaped(s@),
{
    regex::escape(s)
}

/// The acronyms, escaped and joined by `|`.
pub open spec fn alternatives(acronyms: Seq<Seq<char>>) -> Seq<char>
    decreases acronyms.len(),
{
    if acronyms.len() == 0 {
        seq![]
    } else if acronyms.len() == 1 {
        escaped(acronyms[0])
    } else {
        alternatives(acronyms.drop_last()) + seq!['|'] + escaped(acronyms.last())
    }
}

/// The expression that finds an acronym standing as a word or ending one,
/// with the character before it as the first group and the acronym as the
/// second.
pub open spec fn word_pattern(acronyms: Seq<Seq<char>>) -> Seq<char> {
    "(?:([A-Za-z\\d])|^)("@ + alternatives(acronyms) + ")\\b"@
}

/// The expression that finds a run of capitals or digits followed by a
/// capitalised word.
pub open spec fn adjacent_caps_pattern() -> Seq<char> {
    "([A-Z\\d]+)([A-Z][a-z])"@
}

/// The expression that finds a small letter or digit followed by a capital.
pub open spec fn adjacent_pattern() -> Seq<char> {
    "([a-z\\d])([A-Z])"@
}

/// The template that puts an underscore between the two groups.
pub open spec fn split_template() -> Seq<char> {
    "${1}_${2}"@
}

/// The expression built from a list of acronyms.
pub fn word_regex_source(acronyms: &Vec<String>) -> (r: String)
    ensures
        r@ == word_pattern(acronyms@.map_values(|a: String| a@)),
{
    let ghost views = acronyms@.map_values(|a: String| a@);
    let mut re = "(?:([A-Za-z\\d])|^)(".to_owned();
    let mut idx: usize = 0;
    while idx < acronyms.len()
        invariant
            idx <= acronyms.len(),
            views == acronyms@.map_values(|a: String| a@),
            re@ == "(?:([A-Za-z\\d])|^)("@ + alternatives(views.take(idx as int)),
        decreases acronyms.len() - idx,
    {
        if idx > 0 {
            push_char(&mut re, '|');
        }
        let part = escape(acronyms[idx].as_str());
        push_str(&mut re, part.as_str());
        proof {
            let t = views.take(idx + 1);
            assert(t.drop_last() =~= views.take(idx as int));
            assert(t.last() == acronyms@[idx as int]@);
            if idx == 0 {
                assert(alternatives(t) == escaped(t[0]));
            }
            assert(re@ =~= "(?:([A-Za-z\\d])|^)("@ + alternatives(t));
        }
        idx = idx + 1;
    }
    proof {
        assert(views.take(idx as int) =~= views);
    }
    push_str(&mut re, ")\\b");
    proof {
        assert(re@ =~= word_pattern(views));
    }
    re
}

/// What an acronym found in a name turns into: the character before it
/// and an underscore, where there was one, then the acronym in lowercase.
pub fn acronym_word(before: Option<&str>, acronym: &str) -> (r: String)
    ensures
        r@ == (match before {
            Some(b) => b@.push('_'),
            None => Seq::<char>::empty(),
        }) + lowercase(acronym@),
{
    let mut out = String::new();
    if let Some(b) = before {
        push_str(&mut out, b);
        push_char(&mut out, '_');
    }
    let low = to_lowercase(acronym);
    push_str(&mut out, low.as_str());
    out
}

/// `s` with each `::` turned into `/`, read from the left.
pub open spec fn slashed(s: Seq<char>) -> Seq<char>
    decreases s.len(),
{
    if s.len() == 0 {
        seq![]
    } else if s.len() >= 2 && s[0] == ':' && s[1] == ':' {
        seq!['/'] + slashed(s.skip(2))
    } else {
        seq![s[0]] + slashed(s.skip(1))
    }
}

/// `s` with each `-` turned into `_`.
pub open spec fn dashes_underscored(s: Seq<char>) -> Seq<char> {
    s.map_values(|c: char| if c == '-' { '_' } else { c })
}

/// The namespace separators `::` of a constant path turned into `/`.
pub fn slash_namespaces(s: &str) -> (r: String)
    ensures
        r@ == slashed(s@),
{
    let chars = chars_of(s);
    let mut out = String::new();
    let mut i: usize = 0;
    proof {
        assert(chars@.skip(0) =~= chars@);
        assert(out@ + slashed(chars@) =~= slashed(chars@));
    }
    while i < chars.len()
        invariant
            i <= chars@.len(),
            chars@ == s@,
            out@ + slashed(chars@.skip(i as int)) == slashed(chars@),
        decreases chars.len() - i,
    {
        let ghost rest = chars@.skip(i as int);
        let ghost before = out@;
        if i + 1 < chars.len() && chars[i] == ':' && chars[i + 1] == ':' {
            push_char(&mut out, '/');
            proof {
                assert(rest.skip(2) =~= chars@.skip(i + 2));
                assert(slashed(rest) == seq!['/'] + slashed(rest.skip(2)));
                assert(out@ + slashed(chars@.skip(i + 2)) =~= before + (seq!['/'] + slashed(rest.skip(2))));
            }
            i = i + 2;
        } else {
            let c = chars[i];
            push_char(&mut out, c);
            proof {
                assert(rest.skip(1) =~= chars@.skip(i + 1));
                assert(slashed(rest) == seq![c] + slashed(rest.skip(1)));
                assert(out@ + slashed(chars@.skip(i + 1)) =~= before + (seq![c] + slashed(rest.skip(1))));
            }
            i = i + 1;
        }
    }
    proof {
        assert(chars@.skip(i as int) =~= Seq::<char>::empty());
        assert(out@ + Seq::<char>::empty() =~= out@);
    }
    out
}

/// The last steps of turning a name into a path: `-` into `_`, then all of
/// it in lowercase.
pub fn finish_path(s: &str) -> (r: String)
    ensures
        r@ == lowercase(dashes_underscored(s@)),
        all_ascii(s@) ==> r@ == ascii_lowercase(dashes_underscored(s@)),
{
    let chars = chars_of(s);
    let mut out = String::new();
    let mut i: usize = 0;
    while i < chars.len()
        invariant
            i <= chars@.len(),
            chars@ == s@,
            out@ == dashes_underscored(chars@.take(i as int)),
        decreases chars.len() - i,
    {
        let c = chars[i];
        push_char(&mut out, if c == '-' { '_' } else { c });
        proof {
            assert(chars@.take(i + 1) =~= chars@.take(i as int).push(c));
            assert(out@ =~= dashes_underscored(chars@.take(i + 1)));
        }
        i = i + 1;
    }
    proof {
        assert(chars@.take(i as int) =~= s@);
        if all_ascii(s@) {
            assert forall|k: int| 0 <= k < out@.len() implies (#[trigger] out@[k]) as u32 <= 0x7f by {
                assert(out@[k] == (if s@[k] == '-' { '_' } else { s@[k] }));
            }
        }
    }
    to_lowercase(out.as_str())
}

/// The path `underscore` gives for the name `s` with the acronyms
/// `acronyms`: namespaces become directories, registered acronyms become
/// words of their own, capitalised words are split by underscores, dashes
/// become underscores, and all is in lowercase.
pub open spec fn underscored(acronyms: Seq<Seq<char>>, s: Seq<char>) -> Seq<char> {
    let s1 = slashed(s);
    let s2 = if acronyms.len() == 0 { s1 } else { regex_acronyms_replaced(word_pattern(acronyms), s1) };
    let s3 = regex_replaced(adjacent_caps_pattern(), s2, split_template());
    let s4 = regex_replaced(adjacent_pattern(), s3, split_template());
    lowercase(dashes_underscored(s4))
}

/// Turns constant names into the paths of the files that define them.
pub struct Inflector {
    acronyms: Vec<String>,
    word_regex: Option<Pattern>,
    adjacent_caps_regex: Pattern,
    adjacent_regex: Pattern,
}

impl Inflector {
    /// The registered acronyms, in the order they were added.
    pub closed spec fn acronyms(&self) -> Seq<Seq<char>> {
        self.acronyms@.map_values(|a: String| a@)
    }

    /// The expressions are those compiled from the acronyms and the fixed
    /// patterns.
    pub closed spec fn wf(&self) -> bool {
        &&& self.adjacent_caps_regex.source() == adjacent_caps_pattern()
        &&& self.adjacent_regex.source() == adjacent_pattern()
        &&& match self.word_regex {
            None => self.acronyms@.len() == 0,
            Some(p) => self.acronyms@.len() > 0 && p.source() == word_pattern(self.acronyms()),
        }
    }

    /// An inflector with no acronyms. It is there when both fixed patterns
    /// compile, as they do with the regex crate.
    pub fn new() -> (r: Option<Inflector>)
        ensures
            r is Some <==> regex_compiles(adjacent_caps_pattern()) && regex_compiles(adjacent_pattern()),
            r matches Some(i) ==> i.wf() && i.acronyms() == Seq::<Seq<char>>::empty(),
    {
        let caps = compile("([A-Z\\d]+)([A-Z][a-z])");
        let adjacent = compile("([a-z\\d])([A-Z])");
        match (caps, adjacent) {
            (Some(c), Some(a)) => {
                let i = Inflector { acronyms: Vec::new(), word_regex: None, adjacent_caps_regex: c, adjacent_regex: a };
                proof {
                    assert(i.acronyms() =~= Seq::<Seq<char>>::empty());
                }
                Some(i)
            },
            _ => None,
        }
    }

    /// Registers an acronym and rebuilds the expression that finds the
    /// acronyms. Where that expression does not compile, nothing changes
    /// and the result is false.
    pub fn add_acronym(&mut self, acronym: String) -> (ok: bool)
        requires
            old(self).wf(),
        ensures
            final(self).wf(),
            ok == regex_compiles(word_pattern(old(self).acronyms().push(acronym@))),
            ok ==> final(self).acronyms() == old(self).acronyms().push(acronym@),
            !ok ==> final(self).acronyms() == old(self).acronyms(),
    {
        let ghost before = self.acronyms@;
        self.acronyms.push(acronym);
        proof {
            assert(self.acronyms() =~= old(self).acronyms().push(acronym@));
        }
        let source = word_regex_source(&self.acronyms);
        match compile(source.as_str()) {
            Some(p) => {
                self.word_regex = Some(p);
                true
            },
            None => {
                let _ = self.acronyms.pop();
                proof {
                    assert(self.acronyms@ =~= before);
                }
                false
            },
        }
    }

    /// The path of the file expected to define the constant `s`:
    /// `Foo::BarBaz` gives `foo/bar_baz`.
    pub fn underscore(&self, s: &str) -> (r: String)
        requires
            self.wf(),
        ensures
            r@ == underscored(self.acronyms(), s@),
    {
        let s1 = slash_namespaces(s);
        let s2 = match &self.word_regex {
            Some(re) => {
                assert(self.acronyms().len() > 0 && re.source() == word_pattern(self.acronyms()));
                replace_acronyms(re, s1.as_str())
            },
            None => s1,
        };
        let s3 = replace_all(&self.adjacent_caps_regex, s2.as_str(), "${1}_${2}");
        let s4 = replace_all(&self.adjacent_regex, s3.as_str(), "${1}_${2}");
        finish_path(s4.as_str())
    }
}

} // verus!
