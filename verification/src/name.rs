//! Splitting an artifact's file name and composing the name it is exported under.

use crate::laws::{
    lemma_exe_suffix_chars, lemma_hash_follows_last_hyphen, lemma_split_joins,
    lemma_split_well_formed,
};
use vstd::prelude::*;
use vstd::string::StringExecFns;

verus! {

/// Number of characters in the hash that the build tool appends to a stem.
pub const HASH_LEN: usize = 16;

/// Whether `c` is one of `0-9`, `a-f`, `A-F`.
pub open spec fn is_hex_digit(c: char) -> bool {
    ||| '0' <= c <= '9'
    ||| 'a' <= c <= 'f'
    ||| 'A' <= c <= 'F'
}

/// Whether every character of `s` is a hex digit.
pub open spec fn all_hex_digits(s: Seq<char>) -> bool {
    forall|i: int| 0 <= i < s.len() ==> is_hex_digit(#[trigger] s[i])
}

/// Whether `s` has the shape of a hash: sixteen characters, each a hex digit.
///
/// A hex digit takes one byte, so the sixteen may as well be counted in bytes;
/// [`crate::laws::lemma_hash_by_bytes`] shows that.
pub open spec fn is_hash(s: Seq<char>) -> bool {
    &&& s.len() == HASH_LEN
    &&& all_hex_digits(s)
}

/// Whether `s` ends with the one extension that is recognised, `.exe`.
pub open spec fn has_exe_suffix(s: Seq<char>) -> bool {
    ".exe"@.is_suffix_of(s)
}

/// `s` without its `.exe` suffix, or `s` itself where it has none.
pub open spec fn without_exe_suffix(s: Seq<char>) -> Seq<char> {
    if has_exe_suffix(s) {
        s.subrange(0, s.len() - ".exe"@.len())
    } else {
        s
    }
}

/// Whether `s` ends in a hyphen and a hash, with something in front of the hyphen.
///
/// A hash holds no hyphen, so the hyphen in front of it is the last one in `s`;
/// [`crate::laws::lemma_hash_follows_last_hyphen`] shows that.
pub open spec fn ends_in_hash(s: Seq<char>) -> bool {
    &&& s.len() > HASH_LEN + 1
    &&& s[s.len() - HASH_LEN - 1] == '-'
    &&& is_hash(s.subrange(s.len() - HASH_LEN, s.len() as int))
}

/// Whether `i` is the place of the last hyphen in `s`.
pub open spec fn is_last_hyphen(s: Seq<char>, i: int) -> bool {
    &&& 0 <= i < s.len()
    &&& s[i] == '-'
    &&& forall|j: int| i < j < s.len() ==> s[j] != '-'
}

/// A file name taken apart.
#[derive(Clone, Debug, PartialEq, Eq)]
pub struct SplitName {
    /// What stands in front of the hash, or the whole name (less its extension)
    /// where no hash was found.
    pub stem: String,
    /// The sixteen hex digits behind the last hyphen, where there are such.
    pub hash: Option<String>,
    /// `exe`, where the name ended in `.exe`.
    pub extension: Option<String>,
}

/// The parts of a file name as sequences of characters.
pub struct SplitNameView {
    /// The characters of the stem.
    pub stem: Seq<char>,
    /// The characters of the hash, where there is one.
    pub hash: Option<Seq<char>>,
    /// The characters of the extension, where there is one.
    pub extension: Option<Seq<char>>,
}

impl SplitNameView {
    /// The name that is made of these parts: the stem, then a hyphen and the
    /// hash where there is a hash, then a dot and the extension where there is
    /// an extension.
    pub open spec fn joined(self) -> Seq<char> {
        let hashed = match self.hash {
            Some(h) => self.stem + seq!['-'] + h,
            None => self.stem,
        };
        match self.extension {
            Some(e) => hashed + seq!['.'] + e,
            None => hashed,
        }
    }

    /// What holds of the parts that a split gives: the extension is `exe`, and
    /// is there wherever the name ends in `.exe`; the hash has the shape of
    /// one and follows a stem that is not empty; and where there is no hash,
    /// the stem does not end in one.
    pub open spec fn well_formed(self) -> bool {
        &&& match self.extension {
            Some(e) => e == "exe"@,
            None => !has_exe_suffix(self.joined()),
        }
        &&& match self.hash {
            Some(h) => is_hash(h) && self.stem.len() > 0,
            None => !ends_in_hash(self.stem),
        }
    }
}

impl View for SplitName {
    type V = SplitNameView;

    open spec fn view(&self) -> SplitNameView {
        SplitNameView {
            stem: self.stem@,
            hash: match self.hash {
                Some(h) => Some(h@),
                None => None,
            },
            extension: match self.extension {
                Some(e) => Some(e@),
                None => None,
            },
        }
    }
}

/// The parts of the file name `raw`.
///
/// A trailing `.exe` becomes the extension. If what is left ends in a hyphen
/// and a hash, and the hyphen is not its first character, the hash is split
/// off and the stem is what stands before the hyphen; otherwise the stem is
/// all that is left.
pub open spec fn spec_split(raw: Seq<char>) -> SplitNameView {
    let extension = if has_exe_suffix(raw) {
        Some("exe"@)
    } else {
        None
    };
    let rest = without_exe_suffix(raw);
    if ends_in_hash(rest) {
        SplitNameView {
            stem: rest.subrange(0, rest.len() - HASH_LEN - 1),
            hash: Some(rest.subrange(rest.len() - HASH_LEN, rest.len() as int)),
            extension,
        }
    } else {
        SplitNameView { stem: rest, hash: None, extension }
    }
}

/// The characters of an optional string.
pub open spec fn opt_text(s: Option<&str>) -> Option<Seq<char>> {
    match s {
        Some(t) => Some(t@),
        None => None,
    }
}

/// The stem, then a hyphen and the tag where there is a tag, then a dot and
/// the extension where there is an extension.
pub open spec fn spec_compose(
    stem: Seq<char>,
    extension: Option<Seq<char>>,
    tag: Option<Seq<char>>,
) -> Seq<char> {
    let tagged = match tag {
        Some(t) => stem + seq!['-'] + t,
        None => stem,
    };
    match extension {
        Some(e) => tagged + seq!['.'] + e,
        None => tagged,
    }
}

/// The name under which the artifact `file_name` is exported: its stem and
/// extension, with the tag between them and the hash left out.
pub open spec fn spec_target_file_name(file_name: Seq<char>, tag: Option<Seq<char>>) -> Seq<char> {
    let parts = spec_split(file_name);
    spec_compose(parts.stem, parts.extension, tag)
}

/// Puts a name together from a stem, an optional extension and an optional tag.
pub fn compose(stem: &str, extension: Option<&str>, tag: Option<&str>) -> (name: String)
    ensures
        name@ == spec_compose(stem@, opt_text(extension), opt_text(tag)),
{
    let mut name = String::from_str(stem);
    if let Some(t) = tag {
        proof {
            reveal_strlit("-");
        }
        name.append("-");
        name.append(t);
    }
    if let Some(e) = extension {
        proof {
            reveal_strlit(".");
        }
        name.append(".");
        name.append(e);
    }
    name
}

fn hex_digit(c: char) -> (r: bool)
    ensures
        r == is_hex_digit(c),
{
    ('0' <= c && c <= '9') || ('a' <= c && c <= 'f') || ('A' <= c && c <= 'F')
}

/// The characters of `s`, in order.
fn chars_of(s: &str) -> (v: Vec<char>)
    ensures
        v@ == s@,
{
    let mut v: Vec<char> = Vec::new();
    for c in it: s.chars()
        invariant
            it.seq() == s@,
            v@ == it.seq().take(it.index() as int),
    {
        v.push(c);
    }
    v
}

/// Whether `chars` ends with `.exe`.
fn ends_with_exe(chars: &Vec<char>) -> (r: bool)
    ensures
        r == has_exe_suffix(chars@),
{
    let n: usize = chars.len();
    proof {
        lemma_exe_suffix_chars(chars@);
    }
    n >= 4 && chars[n - 4] == '.' && chars[n - 3] == 'e' && chars[n - 2] == 'x' && chars[n - 1]
        == 'e'
}

/// The place of the last hyphen among the first `end` characters.
fn last_hyphen(chars: &Vec<char>, end: usize) -> (r: Option<usize>)
    requires
        end <= chars.len(),
    ensures
        match r {
            Some(i) => is_last_hyphen(chars@.take(end as int), i as int),
            None => forall|j: int| 0 <= j < end ==> chars[j] != '-',
        },
{
    let mut i: usize = end;
    while i > 0
        invariant
            i <= end <= chars.len(),
            forall|j: int| i <= j < end ==> chars[j] != '-',
        decreases i,
    {
        i = i - 1;
        if chars[i] == '-' {
            return Some(i);
        }
    }
    None
}

/// Whether the characters from `from` up to `end` have the shape of a hash.
fn is_hash_range(chars: &Vec<char>, from: usize, end: usize) -> (r: bool)
    requires
        from <= end <= chars.len(),
    ensures
        r == is_hash(chars@.subrange(from as int, end as int)),
{
    if end - from != HASH_LEN {
        return false;
    }
    let ghost candidate = chars@.subrange(from as int, end as int);
    let mut i: usize = from;
    while i < end
        invariant
            from <= i <= end <= chars.len(),
            candidate == chars@.subrange(from as int, end as int),
            forall|j: int| 0 <= j < i - from ==> is_hex_digit(#[trigger] candidate[j]),
        decreases end - i,
    {
        if !hex_digit(chars[i]) {
            assert(!is_hex_digit(candidate[i - from]));
            return false;
        }
        i = i + 1;
    }
    true
}

/// Takes a file name apart into stem, hash and extension. Every name can be
/// split; the parts are well formed, and joined they are the name again.
pub fn split(raw: &str) -> (parts: SplitName)
    ensures
        parts@ == spec_split(raw@),
        parts@.well_formed(),
        parts@.joined() == raw@,
{
    let chars = chars_of(raw);
    let exe = ends_with_exe(&chars);
    proof {
        reveal_strlit(".exe");
        lemma_split_joins(raw@);
        lemma_split_well_formed(raw@);
    }
    let end: usize = if exe {
        chars.len() - 4
    } else {
        chars.len()
    };
    let extension = if exe {
        Some(String::from_str("exe"))
    } else {
        None
    };
    let ghost rest = without_exe_suffix(raw@);
    assert(rest == chars@.take(end as int));
    proof {
        lemma_hash_follows_last_hyphen(rest);
    }
    if let Some(i) = last_hyphen(&chars, end) {
        assert(chars@.subrange(i + 1, end as int) == rest.subrange(i + 1, rest.len() as int));
        if i > 0 && is_hash_range(&chars, i + 1, end) {
            assert(raw@.subrange(0, i as int) == rest.subrange(0, rest.len() - HASH_LEN - 1));
            assert(raw@.subrange(i + 1, end as int) == rest.subrange(
                rest.len() - HASH_LEN,
                rest.len() as int,
            ));
            return SplitName {
                stem: String::from_str(raw.substring_char(0, i)),
                hash: Some(String::from_str(raw.substring_char(i + 1, end))),
                extension,
            };
        }
    }
    assert(raw@.subrange(0, end as int) == rest);
    SplitName { stem: String::from_str(raw.substring_char(0, end)), hash: None, extension }
}

/// The name under which the artifact `file_name` is exported.
///
/// The hash that the build tool put behind the stem is left out, `tag_name`
/// is put behind the stem with a hyphen, and the extension `.exe` stays last.
pub fn target_file_name(file_name: &str, tag_name: Option<&str>) -> (name: String)
    ensures
        name@ == spec_target_file_name(file_name@, opt_text(tag_name)),
{
    let parts = split(file_name);
    let extension = match &parts.extension {
        Some(e) => Some(e.as_str()),
        None => None,
    };
    compose(parts.stem.as_str(), extension, tag_name)
}

} // verus!
