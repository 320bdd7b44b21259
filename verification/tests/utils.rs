use kubemerge::config::{Cluster, KubeConfig, NamedCluster, NamedUser, User};
use kubemerge::fields::FieldMap;
use kubemerge::text::{
    chars_of, contains_chars, decimal, has_suffix_after_stem, is_blank, is_whitespace_char,
};
use kubemerge::utils::{backup_file_name, is_yaml_file, should_exclude, summary_lines};

fn strings(items: &[&str]) -> Vec<String> {
    items.iter().map(|s| s.to_string()).collect()
}

#[test]
fn yaml_files_are_told_by_their_extension() {
    assert!(is_yaml_file("config.yaml"));
    assert!(is_yaml_file("config.yml"));
    assert!(is_yaml_file("a.b.yaml"));
    assert!(is_yaml_file("..yml"));
    assert!(is_yaml_file("héllo.yaml"));
    assert!(!is_yaml_file("config"));
    assert!(!is_yaml_file("config.json"));
    assert!(!is_yaml_file("config.YAML"));
    assert!(!is_yaml_file("config.yaml.bak"));
    assert!(!is_yaml_file("yaml"));
    assert!(!is_yaml_file("configyaml"));
    assert!(!is_yaml_file(""));
}

#[test]
fn hidden_file_without_stem_has_no_extension() {
    assert!(!is_yaml_file(".yaml"));
    assert!(!is_yaml_file(".yml"));
    assert!(is_yaml_file(".hidden.yaml"));
}

#[test]
fn yaml_extension_agrees_with_std_paths() {
    let names = [
        "a.yaml", ".yaml", "a.yml", ".yml", "..yaml", "a.", "a", "", "a.yaml.", "a.b.c.yml",
        "yaml.yaml", "x.yamlx", "x.ym", ".a.yaml", "...", "ä.yml",
    ];
    for name in names {
        let expected = std::path::Path::new(name)
            .extension()
            .map(|e| e == "yaml" || e == "yml")
            .unwrap_or(false);
        assert_eq!(is_yaml_file(name), expected, "{}", name);
    }
}

#[test]
fn exclusion_is_by_substring_of_the_file_name() {
    let patterns = strings(&["backup", "old"]);
    assert!(should_exclude("config.backup.yaml", &patterns));
    assert!(should_exclude("old-cluster.yaml", &patterns));
    assert!(should_exclude("threshold.yaml", &patterns));
    assert!(!should_exclude("prod.yaml", &patterns));
    assert!(!should_exclude("Backup.yaml", &patterns));
    assert!(!should_exclude("bac-kup.yaml", &patterns));
}

#[test]
fn no_pattern_excludes_nothing() {
    assert!(!should_exclude("prod.yaml", &[]));
    assert!(!should_exclude("", &[]));
}

#[test]
fn empty_pattern_excludes_everything() {
    let patterns = strings(&[""]);
    assert!(should_exclude("prod.yaml", &patterns));
    assert!(should_exclude("", &patterns));
}

#[test]
fn exclusion_agrees_with_std_contains() {
    let names = ["", "a", "abc", "aab", "abab", "config.yaml", "ünïcode.yml", "xxabxx"];
    let patterns = ["", "a", "ab", "b", "abc", "bab", "abcd", "ï", "yaml", "x"];
    for name in names {
        for pattern in patterns {
            assert_eq!(
                should_exclude(name, &[pattern.to_string()]),
                name.contains(pattern),
                "{:?} in {:?}",
                pattern,
                name
            );
        }
    }
}

#[test]
fn backup_name_appends_the_timestamp() {
    assert_eq!(
        backup_file_name("/home/me/.kube/config", "20240131-235959"),
        "/home/me/.kube/config.backup.20240131-235959"
    );
    assert_eq!(backup_file_name("", ""), ".backup.");
}

#[test]
fn decimal_numbers() {
    assert_eq!(decimal(0), "0");
    assert_eq!(decimal(7), "7");
    assert_eq!(decimal(10), "10");
    assert_eq!(decimal(42), "42");
    assert_eq!(decimal(1905), "1905");
    assert_eq!(decimal(1_000_000), "1000000");
    assert_eq!(decimal(usize::MAX), usize::MAX.to_string());
}

#[test]
fn decimal_agrees_with_std() {
    for n in 0..2000usize {
        assert_eq!(decimal(n), n.to_string());
    }
}

#[test]
fn blank_texts() {
    assert!(is_blank(""));
    assert!(is_blank(" "));
    assert!(is_blank("\n\t  \r\n"));
    assert!(is_blank("\u{a0}\u{2003}\u{3000}"));
    assert!(!is_blank("a"));
    assert!(!is_blank("   x   "));
    assert!(!is_blank("\n---\n"));
    assert!(!is_blank("\u{200b}"));
}

#[test]
fn white_space_agrees_with_std() {
    for code in 0..=0x10ffffu32 {
        if let Some(c) = char::from_u32(code) {
            assert_eq!(is_whitespace_char(c), c.is_whitespace(), "U+{:04X}", code);
        }
    }
}

#[test]
fn blank_agrees_with_trim() {
    let texts = ["", " ", "\t\n", " a ", "\u{85}", "\u{1680}\u{2028}\u{2029}", "\u{180e}", "x"];
    for text in texts {
        assert_eq!(is_blank(text), text.trim().is_empty(), "{:?}", text);
    }
}

#[test]
fn characters_of_a_text() {
    assert_eq!(chars_of(""), Vec::<char>::new());
    assert_eq!(chars_of("aé€"), vec!['a', 'é', '€']);
}

#[test]
fn search_in_characters() {
    let text = chars_of("kubeconfig");
    assert!(contains_chars(&text, &chars_of("config")));
    assert!(contains_chars(&text, &chars_of("kube")));
    assert!(contains_chars(&text, &chars_of("kubeconfig")));
    assert!(contains_chars(&text, &chars_of("")));
    assert!(!contains_chars(&text, &chars_of("kubeconfigs")));
    assert!(!contains_chars(&text, &chars_of("cube")));
    assert!(contains_chars(&chars_of(""), &chars_of("")));
    assert!(!contains_chars(&chars_of(""), &chars_of("a")));
}

#[test]
fn suffix_needs_a_stem() {
    assert!(has_suffix_after_stem(&chars_of("a.yml"), &chars_of(".yml")));
    assert!(!has_suffix_after_stem(&chars_of(".yml"), &chars_of(".yml")));
    assert!(!has_suffix_after_stem(&chars_of("yml"), &chars_of(".yml")));
    assert!(has_suffix_after_stem(&chars_of("a"), &chars_of("")));
    assert!(!has_suffix_after_stem(&chars_of(""), &chars_of("")));
}

fn named_cluster(name: &str) -> NamedCluster {
    NamedCluster {
        name: name.to_string(),
        cluster: Cluster {
            certificate_authority_data: None,
            certificate_authority: None,
            server: "https://server".to_string(),
            insecure_skip_tls_verify: None,
            other: FieldMap::new(),
        },
    }
}

fn named_user(name: &str) -> NamedUser {
    NamedUser {
        name: name.to_string(),
        user: User {
            client_certificate_data: None,
            client_key_data: None,
            client_certificate: None,
            client_key: None,
            token: None,
            username: None,
            password: None,
            other: FieldMap::new(),
        },
    }
}

#[test]
fn summary_of_a_document() {
    let clusters: Vec<NamedCluster> = (0..12).map(|i| named_cluster(&format!("c{}", i))).collect();
    let config = KubeConfig {
        api_version: "v1".to_string(),
        kind: "Config".to_string(),
        clusters: Some(clusters),
        contexts: None,
        users: Some(vec![named_user("u")]),
        current_context: "prod".to_string(),
        preferences: FieldMap::new(),
    };
    assert_eq!(
        summary_lines(&config),
        strings(&[
            "Merged config contains:",
            "  - 12 clusters",
            "  - 0 contexts",
            "  - 1 users",
            "  - Current context: prod",
        ])
    );
}

#[test]
fn summary_without_current_context() {
    let config = KubeConfig {
        api_version: "v1".to_string(),
        kind: "Config".to_string(),
        clusters: None,
        contexts: Some(Vec::new()),
        users: None,
        current_context: String::new(),
        preferences: FieldMap::new(),
    };
    assert_eq!(
        summary_lines(&config),
        strings(&[
            "Merged config contains:",
            "  - 0 clusters",
            "  - 0 contexts",
            "  - 0 users",
            "  - No current context set",
        ])
    );
}
