use cargo_export::name::{compose, split, SplitName};
use cargo_export::target_file_name;

fn parts(stem: &str, hash: Option<&str>, extension: Option<&str>) -> SplitName {
    SplitName {
        stem: stem.to_string(),
        hash: hash.map(str::to_string),
        extension: extension.map(str::to_string),
    }
}

#[test]
fn hash_is_dropped() {
    assert_eq!(target_file_name("app-ebb8dd5b587f73a1", None), "app");
}

#[test]
fn tag_replaces_hash() {
    assert_eq!(target_file_name("app-ebb8dd5b587f73a1", Some("v1")), "app-v1");
}

#[test]
fn short_hash_is_kept() {
    assert_eq!(target_file_name("app-ebb8dd5b5", None), "app-ebb8dd5b5");
}

#[test]
fn trailing_hyphen_is_kept() {
    assert_eq!(target_file_name("app-", None), "app-");
}

#[test]
fn empty_name_takes_tag() {
    assert_eq!(target_file_name("", Some("v1")), "-v1");
}

#[test]
fn leading_hyphen_is_no_hash() {
    assert_eq!(target_file_name("-ebb8dd5b587f73a1", None), "-ebb8dd5b587f73a1");
}

#[test]
fn tag_goes_before_exe() {
    assert_eq!(target_file_name("app-ebb8dd5b587f73a1.exe", Some("v1")), "app-v1.exe");
}

#[test]
fn bare_exe_takes_tag() {
    assert_eq!(target_file_name(".exe", Some("v1")), "-v1.exe");
}

#[test]
fn split_empty_name() {
    assert_eq!(split(""), parts("", None, None));
}

#[test]
fn split_plain_name() {
    assert_eq!(split("app"), parts("app", None, None));
}

#[test]
fn split_name_with_hash() {
    assert_eq!(split("app-ebb8dd5b587f73a1"), parts("app", Some("ebb8dd5b587f73a1"), None));
}

#[test]
fn split_name_with_hash_and_exe() {
    assert_eq!(
        split("app-ebb8dd5b587f73a1.exe"),
        parts("app", Some("ebb8dd5b587f73a1"), Some("exe"))
    );
}

#[test]
fn split_name_with_exe_only() {
    assert_eq!(split("app.exe"), parts("app", None, Some("exe")));
}

#[test]
fn split_bare_exe() {
    assert_eq!(split(".exe"), parts("", None, Some("exe")));
}

#[test]
fn split_keeps_leading_hyphen() {
    assert_eq!(split("-ebb8dd5b587f73a1"), parts("-ebb8dd5b587f73a1", None, None));
}

#[test]
fn split_keeps_leading_hyphen_before_exe() {
    assert_eq!(split("-ebb8dd5b587f73a1.exe"), parts("-ebb8dd5b587f73a1", None, Some("exe")));
}

#[test]
fn split_keeps_trailing_hyphen() {
    assert_eq!(split("app-"), parts("app-", None, None));
}

#[test]
fn split_takes_hash_behind_last_hyphen() {
    assert_eq!(
        split("my-app-ebb8dd5b587f73a1"),
        parts("my-app", Some("ebb8dd5b587f73a1"), None)
    );
    assert_eq!(
        split("app-ebb8dd5b587f73a1-0123456789abcdef"),
        parts("app-ebb8dd5b587f73a1", Some("0123456789abcdef"), None)
    );
}

#[test]
fn split_looks_only_behind_last_hyphen() {
    assert_eq!(
        split("app-ebb8dd5b587f73a1-x"),
        parts("app-ebb8dd5b587f73a1-x", None, None)
    );
}

#[test]
fn split_takes_upper_case_hash() {
    assert_eq!(split("app-EBB8DD5B587F73A1"), parts("app", Some("EBB8DD5B587F73A1"), None));
    assert_eq!(split("app-0123456789abcDEF"), parts("app", Some("0123456789abcDEF"), None));
}

#[test]
fn split_wants_sixteen_digits() {
    assert_eq!(split("app-ebb8dd5b587f73a"), parts("app-ebb8dd5b587f73a", None, None));
    assert_eq!(split("app-ebb8dd5b587f73a12"), parts("app-ebb8dd5b587f73a12", None, None));
}

#[test]
fn split_wants_hex_digits() {
    assert_eq!(split("app-ebb8dd5b587f73ag"), parts("app-ebb8dd5b587f73ag", None, None));
    assert_eq!(split("app-gbb8dd5b587f73a1"), parts("app-gbb8dd5b587f73a1", None, None));
    assert_eq!(split("app-ebb8dd5b 87f73a1"), parts("app-ebb8dd5b 87f73a1", None, None));
    assert_eq!(split("app-ebb8dd5b587f73a/"), parts("app-ebb8dd5b587f73a/", None, None));
    assert_eq!(split("app-ebb8dd5b587f73a:"), parts("app-ebb8dd5b587f73a:", None, None));
    assert_eq!(split("app-ebb8dd5b587f73a@"), parts("app-ebb8dd5b587f73a@", None, None));
    assert_eq!(split("app-ebb8dd5b587f73aG"), parts("app-ebb8dd5b587f73aG", None, None));
    assert_eq!(split("app-ebb8dd5b587f73a`"), parts("app-ebb8dd5b587f73a`", None, None));
}

#[test]
fn split_keeps_wide_characters_in_stem() {
    assert_eq!(
        split("\u{1F980}-ebb8dd5b587f73a1"),
        parts("\u{1F980}", Some("ebb8dd5b587f73a1"), None)
    );
    assert_eq!(
        split("caf\u{e9}-\u{1F980}-ebb8dd5b587f73a1.exe"),
        parts("caf\u{e9}-\u{1F980}", Some("ebb8dd5b587f73a1"), Some("exe"))
    );
}

#[test]
fn split_rejects_wide_characters_in_hash() {
    // Sixteen bytes behind the hyphen, but not sixteen hex digits.
    assert_eq!(
        split("app-ebb8dd5b587f\u{1F980}"),
        parts("app-ebb8dd5b587f\u{1F980}", None, None)
    );
    // Sixteen characters behind the hyphen, one of them wide.
    assert_eq!(
        split("app-ebb8dd5b587f73a\u{e9}"),
        parts("app-ebb8dd5b587f73a\u{e9}", None, None)
    );
}

#[test]
fn split_knows_no_other_extension() {
    assert_eq!(split("libapp.so"), parts("libapp.so", None, None));
    assert_eq!(split("app.EXE"), parts("app.EXE", None, None));
    assert_eq!(split("app.exe.bak"), parts("app.exe.bak", None, None));
    assert_eq!(split("exe"), parts("exe", None, None));
    assert_eq!(
        split("app-ebb8dd5b587f73a1.dll"),
        parts("app-ebb8dd5b587f73a1.dll", None, None)
    );
}

#[test]
fn split_strips_one_exe_only() {
    assert_eq!(split("app.exe.exe"), parts("app.exe", None, Some("exe")));
}

#[test]
fn compose_stem_alone() {
    assert_eq!(compose("app", None, None), "app");
    assert_eq!(compose("", None, None), "");
}

#[test]
fn compose_with_tag() {
    assert_eq!(compose("app", None, Some("v1")), "app-v1");
    assert_eq!(compose("app", None, Some("")), "app-");
}

#[test]
fn compose_with_extension() {
    assert_eq!(compose("app", Some("exe"), None), "app.exe");
    assert_eq!(compose("app", Some("so"), None), "app.so");
}

#[test]
fn compose_with_tag_and_extension() {
    assert_eq!(compose("app", Some("exe"), Some("v1")), "app-v1.exe");
    assert_eq!(compose("", Some("exe"), Some("v1")), "-v1.exe");
    assert_eq!(compose("caf\u{e9}", Some("exe"), Some("\u{1F980}")), "caf\u{e9}-\u{1F980}.exe");
}

#[test]
fn tag_is_used_as_given() {
    assert_eq!(target_file_name("app-ebb8dd5b587f73a1", Some("a b.c-d")), "app-a b.c-d");
    assert_eq!(
        target_file_name("app-ebb8dd5b587f73a1.exe", Some("0123456789abcdef")),
        "app-0123456789abcdef.exe"
    );
}

#[test]
fn tag_follows_other_extensions() {
    assert_eq!(target_file_name("libapp.so", Some("v1")), "libapp.so-v1");
    assert_eq!(
        target_file_name("app-ebb8dd5b587f73a1.dylib", Some("v1")),
        "app-ebb8dd5b587f73a1.dylib-v1"
    );
}

#[test]
fn split_parts_join_to_name() {
    let names = [
        "",
        "app",
        "app-",
        "-ebb8dd5b587f73a1",
        "app-ebb8dd5b587f73a1",
        "app-ebb8dd5b587f73a1.exe",
        "my-app-ebb8dd5b5.exe",
        ".exe",
        "libapp.so",
        "\u{1F980}-ebb8dd5b587f73a1",
    ];
    for name in names {
        let found = split(name);
        let mut joined = found.stem.clone();
        if let Some(hash) = &found.hash {
            joined.push('-');
            joined.push_str(hash);
        }
        if let Some(extension) = &found.extension {
            joined.push('.');
            joined.push_str(extension);
        }
        assert_eq!(joined, name);
    }
}

#[test]
fn split_finds_the_parts_that_were_joined() {
    let all = [
        parts("app", Some("ebb8dd5b587f73a1"), Some("exe")),
        parts("app", Some("ebb8dd5b587f73a1"), None),
        parts("my-app", Some("EBB8DD5B587F73A1"), None),
        parts("app", None, Some("exe")),
        parts("app-ebb8dd5b5", None, None),
        parts("-ebb8dd5b587f73a1", None, Some("exe")),
        parts("", None, None),
    ];
    for given in all {
        let mut joined = given.stem.clone();
        if let Some(hash) = &given.hash {
            joined.push('-');
            joined.push_str(hash);
        }
        if let Some(extension) = &given.extension {
            joined.push('.');
            joined.push_str(extension);
        }
        assert_eq!(split(&joined), given);
    }
}

#[test]
fn name_without_hash_comes_back() {
    let names = [
        "",
        "app",
        "app-",
        "-ebb8dd5b587f73a1",
        "app-ebb8dd5b5",
        "my-app",
        "libapp.so",
        "app-ebb8dd5b587f73a1.dll",
        "app.exe",
        ".exe",
        "\u{1F980}",
    ];
    for name in names {
        assert_eq!(split(name).hash, None);
        assert_eq!(target_file_name(name, None), name);
    }
}

#[test]
fn extension_is_found_again() {
    let names = ["", "app", "app-ebb8dd5b587f73a1", "app.exe", "libapp.so", "app-"];
    let tags = [None, Some("v1"), Some(".exe"), Some("")];
    for name in names {
        if !name.ends_with(".exe") {
            assert_eq!(split(name).extension, None);
        }
        for tag in tags {
            let mut again = target_file_name(name, tag);
            again.push_str(".exe");
            assert_eq!(split(&again).extension.as_deref(), Some("exe"));
        }
    }
}

#[test]
fn built_names_keep_stem_and_tag() {
    let stems = ["a", "app", "abcdefabcdefabcdefabcdef", "zzz"];
    let hashes = [None, Some("ebb8dd5b587f73a1"), Some("0000000000000000"), Some("ABCDEF0123456789")];
    let extensions = [None, Some("exe"), Some("dylib"), Some("so"), Some("dll")];
    let tags = [None, Some("v1"), Some(""), Some("-"), Some("x.so"), Some("\u{1F980}")];
    for stem in stems {
        for hash in hashes {
            for extension in extensions {
                let mut built = stem.to_string();
                if let Some(hash) = hash {
                    built.push('-');
                    built.push_str(hash);
                }
                if let Some(extension) = extension {
                    built.push('.');
                    built.push_str(extension);
                }
                for tag in tags {
                    let name = target_file_name(&built, tag);
                    assert!(name.starts_with(stem));
                    if let Some(tag) = tag {
                        assert!(name.contains(tag));
                    }
                    let known = extension.is_none() || extension == Some("exe");
                    if let Some(extension) = extension {
                        let ending = format!(".{}", extension);
                        let kept = known || tag.map_or(true, |t| t.ends_with(&ending));
                        assert_eq!(name.ends_with(&ending), kept);
                    }
                    if let Some(hash) = hash {
                        let held = !known
                            || stem.contains(hash)
                            || tag.map_or(false, |t| t.contains(hash));
                        assert_eq!(name.contains(hash), held);
                    }
                }
            }
        }
    }
}

#[test]
fn hash_inside_stem_or_tag_stays() {
    assert_eq!(
        target_file_name("abcdefabcdefabcdef-abcdefabcdefabcd", None),
        "abcdefabcdefabcdef"
    );
    assert_eq!(
        target_file_name("app-ebb8dd5b587f73a1", Some("ebb8dd5b587f73a1")),
        "app-ebb8dd5b587f73a1"
    );
}
