use dothub::registry::{flatten, Registry, RegistryEntry, SourceValue};

fn s(x: &str) -> String {
    x.to_string()
}

fn entry(t: &str, u: &str) -> RegistryEntry {
    RegistryEntry { type_tag: s(t), source_url: s(u) }
}

fn sample() -> Registry {
    Registry {
        entries: vec![
            (s("nvim"), SourceValue::Single(s("https://github.com/a/b"))),
            (
                s("tmux"),
                SourceValue::Many(vec![s("https://github.com/c/d"), s("https://gitlab.com/e/f")]),
            ),
            (s("Fish"), SourceValue::Many(vec![])),
        ],
    }
}

#[test]
fn single_values_give_one_entry_per_key() {
    let reg = Registry {
        entries: vec![
            (s("nvim"), SourceValue::Single(s("u1"))),
            (s("tmux"), SourceValue::Single(s("u2"))),
        ],
    };
    assert_eq!(flatten(&reg, &vec![]), vec![entry("nvim", "u1"), entry("tmux", "u2")]);
}

#[test]
fn list_values_give_one_entry_per_url() {
    let reg = Registry {
        entries: vec![(s("tmux"), SourceValue::Many(vec![s("u1"), s("u2"), s("u3")]))],
    };
    let out = flatten(&reg, &vec![]);
    assert_eq!(out, vec![entry("tmux", "u1"), entry("tmux", "u2"), entry("tmux", "u3")]);
}

#[test]
fn empty_filter_keeps_everything() {
    let out = flatten(&sample(), &vec![]);
    assert_eq!(
        out,
        vec![
            entry("nvim", "https://github.com/a/b"),
            entry("tmux", "https://github.com/c/d"),
            entry("tmux", "https://gitlab.com/e/f"),
        ]
    );
}

#[test]
fn filter_keeps_matching_type_only() {
    let out = flatten(&sample(), &vec![s("nvim")]);
    assert_eq!(out, vec![entry("nvim", "https://github.com/a/b")]);
}

#[test]
fn filter_is_case_insensitive() {
    let out = flatten(&sample(), &vec![s("TMUX")]);
    assert_eq!(
        out,
        vec![entry("tmux", "https://github.com/c/d"), entry("tmux", "https://gitlab.com/e/f")]
    );
}

#[test]
fn filter_matching_nothing_gives_nothing() {
    assert_eq!(flatten(&sample(), &vec![s("zsh")]), vec![]);
}

#[test]
fn empty_list_value_gives_no_entries() {
    assert_eq!(flatten(&sample(), &vec![s("fish")]), vec![]);
}
