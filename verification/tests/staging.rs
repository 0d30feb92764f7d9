use lbry_superpeer::staging::{path_leads_out, stage_name, staging_name, PathStyle};

fn staged(style: PathStyle, name: &str) -> String {
    stage_name(style, name.to_string())
}

#[test]
fn staging_directories() {
    assert_eq!(staging_name(Some(1700000000)), "upload-1700000000");
    assert_eq!(staging_name(None), "upload-0");
}

#[test]
fn names_that_stay_are_kept() {
    let names = [
        "", "a.wav", "a b", ".", "./x", "a/b", "a/b/", "a//b", "x/../y", "a/b/../../c", "...",
        "..x", "x..", ".hidden", "a/..", "é/ü",
    ];
    for name in names {
        for style in [PathStyle::Unix, PathStyle::Windows] {
            assert!(!path_leads_out(style, name), "{name:?}");
            assert_eq!(staged(style, name), name);
        }
    }
    for name in ["a\\b", "..\\x", "\\x", "C:x", "a\\..\\..\\b"] {
        assert_eq!(staged(PathStyle::Unix, name), name);
    }
    for name in ["a\\b", "a\\..\\b", "1:x", "ab:c", ":x", "é:x", "C"] {
        assert_eq!(staged(PathStyle::Windows, name), name);
    }
}

#[test]
fn names_that_lead_out_are_put_in_one_piece() {
    for style in [PathStyle::Unix, PathStyle::Windows] {
        assert_eq!(staged(style, "../../x"), ".._.._x");
        assert_eq!(staged(style, "/tmp/x"), "_tmp_x");
        assert_eq!(staged(style, "/"), "_");
        assert_eq!(staged(style, "../"), ".._");
        assert_eq!(staged(style, "a/../../b"), "a_.._.._b");
        assert_eq!(staged(style, "./../b\\c"), "._.._b_c");
        assert_eq!(staged(style, "a/./../.."), "a_._.._..");
    }
    assert_eq!(staged(PathStyle::Windows, "..\\x"), ".._x");
    assert_eq!(staged(PathStyle::Windows, "\\\\host\\x"), "__host_x");
    assert_eq!(staged(PathStyle::Windows, "C:x"), "C_x");
    assert_eq!(staged(PathStyle::Windows, "z:\\a:b"), "z__a_b");
    assert_eq!(staged(PathStyle::Unix, "/C:x"), "_C:x");
}

#[test]
fn a_staged_name_leads_out_only_if_it_is_the_directory_above() {
    let pieces = ["..", "/", "\\", "C:", "a", "."];
    for a in pieces {
        for b in pieces {
            for c in pieces {
                for style in [PathStyle::Unix, PathStyle::Windows] {
                    let name = format!("{a}{b}{c}");
                    assert!(!path_leads_out(style, &staged(style, &name)), "{name:?}");
                }
            }
        }
    }
    for style in [PathStyle::Unix, PathStyle::Windows] {
        assert!(path_leads_out(style, ".."));
        assert_eq!(staged(style, ".."), "..");
    }
}
