//! What holds of every file name that is split and composed.
//!
//! First come the facts that tie the definitions of [`crate::name`] to the
//! characters of a name. Then: a split loses nothing and is the only
//! well-formed one; the extension is found exactly where the name ends with
//! `.exe`; a name without a hash comes back unchanged. The last part is about
//! names as a build tool makes them, and says when the exported name keeps
//! the stem, the tag and the extension, and when it is free of the hash.

use crate::name::{
    all_hex_digits, ends_in_hash, has_exe_suffix, is_hash, is_hex_digit, is_last_hyphen,
    spec_compose, spec_split, spec_target_file_name, without_exe_suffix, SplitNameView, HASH_LEN,
};
use crate::text::{lemma_occurs_beside, lemma_occurs_in_either, occurs_at, occurs_in};
use vstd::prelude::*;
use vstd::utf8::{encode_utf8, is_ascii_chars, is_ascii_chars_encode_utf8};

verus! {

/// A hex digit takes one byte, so a hash may as well be measured in bytes: a
/// sequence is a hash exactly if it is made of hex digits and its UTF-8 form
/// is sixteen bytes long.
pub proof fn lemma_hash_by_bytes(s: Seq<char>)
    ensures
        is_hash(s) <==> all_hex_digits(s) && encode_utf8(s).len() == HASH_LEN,
{
    if all_hex_digits(s) {
        assert(is_ascii_chars(s)) by {
            assert forall|i: int| 0 <= i < s.len() implies '\0' <= #[trigger] s[i] <= '\u{7f}' by {
                assert(is_hex_digit(s[i]));
            }
        }
        is_ascii_chars_encode_utf8(s);
    }
}

/// A name ends with `.exe` exactly if its last four characters are a dot, `e`,
/// `x` and `e`.
pub proof fn lemma_exe_suffix_chars(s: Seq<char>)
    ensures
        has_exe_suffix(s) <==> {
            &&& s.len() >= 4
            &&& s[s.len() - 4] == '.'
            &&& s[s.len() - 3] == 'e'
            &&& s[s.len() - 2] == 'x'
            &&& s[s.len() - 1] == 'e'
        },
        ".exe"@ == seq!['.', 'e', 'x', 'e'],
        "exe"@ == seq!['e', 'x', 'e'],
{
    reveal_strlit(".exe");
    reveal_strlit("exe");
    if s.len() >= 4 {
        let tail = s.subrange(s.len() - 4, s.len() as int);
        assert(tail[0] == s[s.len() - 4] && tail[1] == s[s.len() - 3] && tail[2] == s[s.len() - 2]
            && tail[3] == s[s.len() - 1]);
    }
}

/// A name ends in a hash exactly if what follows its last hyphen has the shape
/// of a hash and that hyphen is not the first character of the name.
pub proof fn lemma_hash_follows_last_hyphen(s: Seq<char>)
    ensures
        ends_in_hash(s) <==> exists|i: int|
            0 < i && is_last_hyphen(s, i) && is_hash(s.subrange(i + 1, s.len() as int)),
{
    let at = s.len() - HASH_LEN - 1;
    if ends_in_hash(s) {
        let hash = s.subrange(at + 1, s.len() as int);
        assert forall|j: int| at < j < s.len() implies s[j] != '-' by {
            assert(is_hex_digit(hash[j - at - 1]));
        }
        assert(is_last_hyphen(s, at));
    }
    if exists|i: int| 0 < i && is_last_hyphen(s, i) && is_hash(s.subrange(i + 1, s.len() as int)) {
        let i = choose|i: int|
            0 < i && is_last_hyphen(s, i) && is_hash(s.subrange(i + 1, s.len() as int));
        assert(s.subrange(i + 1, s.len() as int).len() == HASH_LEN);
        assert(i == at);
    }
}

/// The parts of a name, joined, are the name again: a split loses nothing.
pub proof fn lemma_split_joins(raw: Seq<char>)
    ensures
        spec_split(raw).joined() == raw,
{
    lemma_exe_suffix_chars(raw);
    let rest = without_exe_suffix(raw);
    if has_exe_suffix(raw) {
        assert(raw == rest + seq!['.'] + "exe"@);
    }
    if ends_in_hash(rest) {
        let stem = rest.subrange(0, rest.len() - HASH_LEN - 1);
        let hash = rest.subrange(rest.len() - HASH_LEN, rest.len() as int);
        assert(rest == stem + seq!['-'] + hash);
    }
}

/// The parts that a split gives are well formed.
pub proof fn lemma_split_well_formed(raw: Seq<char>)
    ensures
        spec_split(raw).well_formed(),
{
    lemma_split_joins(raw);
}

/// Well-formed parts are the split of the name they join to: no name has two
/// well-formed splits.
pub proof fn lemma_split_unique(parts: SplitNameView)
    requires
        parts.well_formed(),
    ensures
        spec_split(parts.joined()) == parts,
{
    let raw = parts.joined();
    lemma_exe_suffix_chars(raw);
    let hashed = match parts.hash {
        Some(h) => parts.stem + seq!['-'] + h,
        None => parts.stem,
    };
    if parts.extension is Some {
        assert(raw == hashed + seq!['.'] + "exe"@);
        assert(without_exe_suffix(raw) == hashed);
    }
    let rest = without_exe_suffix(raw);
    assert(rest == hashed);
    if let Some(h) = parts.hash {
        assert(rest.subrange(rest.len() - HASH_LEN, rest.len() as int) == h);
        assert(rest.subrange(0, rest.len() - HASH_LEN - 1) == parts.stem);
    }
}

/// A name has an extension exactly if it ends with `.exe`, and the extension
/// is then `exe`.
pub proof fn lemma_extension_iff_exe_suffix(raw: Seq<char>)
    ensures
        !has_exe_suffix(raw) ==> spec_split(raw).extension is None,
        has_exe_suffix(raw) ==> spec_split(raw).extension == Some("exe"@),
{
}

/// Whatever stands in front of it, a name that ends with `.exe` splits with
/// the extension `exe`.
pub proof fn lemma_exe_suffix_gives_extension(front: Seq<char>)
    ensures
        spec_split(front + ".exe"@).extension == Some("exe"@),
{
    let name = front + ".exe"@;
    assert(name.subrange(name.len() - ".exe"@.len(), name.len() as int) == ".exe"@);
}

/// Finding the extension can be repeated: take any name, split it and compose
/// it again, with a tag or without, and put `.exe` behind the result; a split
/// of that finds the extension `exe`.
pub proof fn lemma_exe_extension_recovered(raw: Seq<char>, tag: Option<Seq<char>>)
    ensures
        spec_split(spec_target_file_name(raw, tag) + ".exe"@).extension == Some("exe"@),
{
    lemma_exe_suffix_gives_extension(spec_target_file_name(raw, tag));
}

/// A name in which no hash is found comes back unchanged when it is split and
/// composed without a tag, whether or not it ends with `.exe`.
pub proof fn lemma_round_trip_without_hash(raw: Seq<char>)
    requires
        spec_split(raw).hash is None,
    ensures
        spec_target_file_name(raw, None) == raw,
{
    lemma_split_joins(raw);
}

/// A name that does not end with `.exe`, and in which what follows the last
/// hyphen is not a hash, is its own stem, and comes back unchanged when it is
/// split and composed without a tag.
pub proof fn lemma_round_trip_plain_name(raw: Seq<char>)
    requires
        !has_exe_suffix(raw),
        forall|i: int| is_last_hyphen(raw, i) ==> !is_hash(raw.subrange(i + 1, raw.len() as int)),
    ensures
        spec_split(raw) == (SplitNameView { stem: raw, hash: None, extension: None }),
        spec_target_file_name(raw, None) == raw,
{
    lemma_hash_follows_last_hyphen(raw);
}

/// Whether `name` is made of one or more of the letters `a` to `z`.
pub open spec fn is_lower_case_name(name: Seq<char>) -> bool {
    &&& name.len() > 0
    &&& forall|i: int| 0 <= i < name.len() ==> 'a' <= #[trigger] name[i] <= 'z'
}

/// Whether `extension` is one that a build tool gives to what it produces:
/// `exe`, `dylib`, `so` or `dll`.
pub open spec fn is_build_extension(extension: Seq<char>) -> bool {
    ||| extension == "exe"@
    ||| extension == "dylib"@
    ||| extension == "so"@
    ||| extension == "dll"@
}

/// Whether the parts are those of a name as a build tool makes it: a stem of
/// lower-case letters, a hash or none, a build extension or none.
pub open spec fn is_built(parts: SplitNameView) -> bool {
    &&& is_lower_case_name(parts.stem)
    &&& match parts.hash {
        Some(h) => is_hash(h),
        None => true,
    }
    &&& match parts.extension {
        Some(e) => is_build_extension(e),
        None => true,
    }
}

/// Whether the split knows the extension of the parts: there is none, or it
/// is `exe`.
pub open spec fn has_known_extension(parts: SplitNameView) -> bool {
    parts.extension is None || parts.extension == Some("exe"@)
}

/// How a name that a build tool made splits. With the extension `exe` or
/// none, the split gives back the parts it was made of. With another
/// extension nothing is recognised, and the whole name is the stem.
pub proof fn lemma_split_of_built_name(parts: SplitNameView)
    requires
        is_built(parts),
    ensures
        has_known_extension(parts) ==> spec_split(parts.joined()) == parts,
        !has_known_extension(parts) ==> spec_split(parts.joined()) == (SplitNameView {
            stem: parts.joined(),
            hash: None,
            extension: None,
        }),
{
    reveal_strlit("dylib");
    reveal_strlit("so");
    reveal_strlit("dll");
    let raw = parts.joined();
    lemma_exe_suffix_chars(raw);
    if has_known_extension(parts) {
        if parts.hash is None {
            assert(!ends_in_hash(parts.stem)) by {
                if parts.stem.len() > HASH_LEN + 1 {
                    assert('a' <= parts.stem[parts.stem.len() - HASH_LEN - 1]);
                }
            }
        }
        if parts.extension is None {
            assert(!has_exe_suffix(raw)) by {
                if raw.len() >= 4 {
                    if let Some(h) = parts.hash {
                        assert(raw[raw.len() - 4] == h[HASH_LEN - 4]);
                    }
                }
            }
        }
        lemma_split_unique(parts);
    } else {
        let whole = SplitNameView { stem: raw, hash: None, extension: None };
        let e = parts.extension->0;
        assert(raw[raw.len() - 1] == e[e.len() - 1]);
        assert(!ends_in_hash(raw)) by {
            if raw.len() > HASH_LEN + 1 {
                let tail = raw.subrange(raw.len() - HASH_LEN, raw.len() as int);
                assert(raw[raw.len() - e.len() - 1] == '.');
                assert(tail[HASH_LEN - e.len() - 1] == '.');
            }
        }
        lemma_split_unique(whole);
    }
}

/// The extension of the parts with a dot in front, as it stands at the end of
/// a file name.
pub open spec fn dotted_extension(parts: SplitNameView) -> Seq<char>
    recommends
        parts.extension is Some,
{
    seq!['.'] + parts.extension->0
}

/// The name under which a built name is exported begins with the stem, and
/// holds the tag where a tag is given.
pub proof fn lemma_export_keeps_stem_and_tag(parts: SplitNameView, tag: Option<Seq<char>>)
    requires
        is_built(parts),
    ensures
        parts.stem.is_prefix_of(spec_target_file_name(parts.joined(), tag)),
        tag is Some ==> occurs_in(tag->0, spec_target_file_name(parts.joined(), tag)),
{
    lemma_split_of_built_name(parts);
    let found = spec_split(parts.joined());
    let out = spec_target_file_name(parts.joined(), tag);
    assert(parts.stem.is_prefix_of(found.stem));
    assert(found.stem.is_prefix_of(out));
    if let Some(t) = tag {
        let at = found.stem.len() as int + 1;
        assert(out.subrange(at, at + t.len()) == t);
        assert(occurs_at(t, out, at));
    }
}

/// The name under which a built name is exported ends with the dot and the
/// extension of the built name, where the extension is `exe`, or no tag is
/// given, or the tag itself ends so.
pub proof fn lemma_export_keeps_extension(parts: SplitNameView, tag: Option<Seq<char>>)
    requires
        is_built(parts),
        parts.extension is Some,
        has_known_extension(parts) || tag is None || dotted_extension(parts).is_suffix_of(tag->0),
    ensures
        dotted_extension(parts).is_suffix_of(spec_target_file_name(parts.joined(), tag)),
{
    lemma_split_of_built_name(parts);
    let out = spec_target_file_name(parts.joined(), tag);
    let ending = dotted_extension(parts);
    if !has_known_extension(parts) && tag is Some {
        let t = tag->0;
        assert(out.subrange(out.len() - ending.len(), out.len() as int) == t.subrange(
            t.len() - ending.len(),
            t.len() as int,
        ));
    } else {
        assert(out.subrange(out.len() - ending.len(), out.len() as int) == ending);
    }
}

/// In every other case the name under which a built name is exported does
/// not end with the dot and the extension: an extension other than `exe`
/// stays in the stem, and the tag comes behind it.
pub proof fn lemma_export_buries_extension(parts: SplitNameView, tag: Option<Seq<char>>)
    requires
        is_built(parts),
        parts.extension is Some,
        !has_known_extension(parts),
        tag is Some,
        !dotted_extension(parts).is_suffix_of(tag->0),
    ensures
        !dotted_extension(parts).is_suffix_of(spec_target_file_name(parts.joined(), tag)),
{
    reveal_strlit("dylib");
    reveal_strlit("so");
    reveal_strlit("dll");
    lemma_split_of_built_name(parts);
    let out = spec_target_file_name(parts.joined(), tag);
    let ending = dotted_extension(parts);
    let t = tag->0;
    if ending.is_suffix_of(out) {
        let tail = out.subrange(out.len() - ending.len(), out.len() as int);
        if t.len() >= ending.len() {
            assert(t.subrange(t.len() - ending.len(), t.len() as int) == tail);
        } else {
            assert(tail[ending.len() - t.len() - 1] == '-');
        }
    }
}

/// The name under which a built name is exported does not hold the hash of
/// the built name, where the extension is `exe` or there is none, and neither
/// the stem nor the tag holds the hash in itself.
pub proof fn lemma_export_drops_hash(parts: SplitNameView, tag: Option<Seq<char>>)
    requires
        is_built(parts),
        parts.hash is Some,
        has_known_extension(parts),
        !occurs_in(parts.hash->0, parts.stem),
        tag is Some ==> !occurs_in(parts.hash->0, tag->0),
    ensures
        !occurs_in(parts.hash->0, spec_target_file_name(parts.joined(), tag)),
{
    reveal_strlit("exe");
    lemma_split_of_built_name(parts);
    let out = spec_target_file_name(parts.joined(), tag);
    let hash = parts.hash->0;
    let tagged = spec_compose(parts.stem, None, tag);
    assert forall|i: int| 0 <= i < hash.len() implies hash[i] != '-' && hash[i] != '.' by {
        assert(is_hex_digit(hash[i]));
    }
    if occurs_in(hash, out) {
        if parts.extension is Some {
            assert(out == tagged + seq!['.'] + "exe"@);
            lemma_occurs_beside(hash, tagged, '.', "exe"@);
            assert(!occurs_in(hash, "exe"@)) by {
                assert(forall|at: int| !occurs_at(hash, "exe"@, at));
            }
        }
        assert(occurs_in(hash, tagged));
        if let Some(t) = tag {
            lemma_occurs_beside(hash, parts.stem, '-', t);
        }
    }
}

/// In every other case the name under which a built name is exported holds
/// the hash of the built name: in the stem, which an extension other than
/// `exe` makes of the whole name, or in the tag.
pub proof fn lemma_export_holds_hash(parts: SplitNameView, tag: Option<Seq<char>>)
    requires
        is_built(parts),
        parts.hash is Some,
        !has_known_extension(parts) || occurs_in(parts.hash->0, parts.stem) || (tag is Some
            && occurs_in(parts.hash->0, tag->0)),
    ensures
        occurs_in(parts.hash->0, spec_target_file_name(parts.joined(), tag)),
{
    lemma_split_of_built_name(parts);
    let raw = parts.joined();
    let found = spec_split(raw);
    let out = spec_target_file_name(raw, tag);
    let hash = parts.hash->0;
    let ending = match found.extension {
        Some(e) => seq!['.'] + e,
        None => Seq::empty(),
    };
    if tag is Some && occurs_in(hash, tag->0) {
        let front = found.stem + seq!['-'];
        lemma_occurs_in_either(hash, front, tag->0);
        lemma_occurs_in_either(hash, front + tag->0, ending);
        assert(out == front + tag->0 + ending);
    } else {
        let behind = match tag {
            Some(t) => seq!['-'] + t + ending,
            None => ending,
        };
        assert(occurs_in(hash, found.stem)) by {
            if !has_known_extension(parts) {
                let at = parts.stem.len() as int + 1;
                assert(raw.subrange(at, at + hash.len()) == hash);
                assert(occurs_at(hash, raw, at));
            }
        }
        lemma_occurs_in_either(hash, found.stem, behind);
        assert(out == found.stem + behind);
    }
}

} // verus!
