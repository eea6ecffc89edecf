use dothub::catalog::{catalog_notes, spinner_frame, table_cells, token_help_url, HubConfig, Note};
use dothub::popularity::{Reply, Request, StarLookup};
use dothub::ranking::{rank, rank_catalog, RankedEntry};
use dothub::registry::{flatten, Registry, SourceValue};

fn s(x: &str) -> String {
    x.to_string()
}

fn row(url: &str, stars: u64) -> RankedEntry {
    RankedEntry { type_tag: s("t"), source_url: s(url), stars, installed: false }
}

#[test]
fn rank_orders_by_stars_descending_and_keeps_ties_in_order() {
    let rows = vec![row("a", 3), row("b", 0), row("c", 10), row("d", 10)];
    let out = rank(rows);
    let order: Vec<(String, u64)> = out.iter().map(|e| (e.source_url.clone(), e.stars)).collect();
    assert_eq!(order, vec![(s("c"), 10), (s("d"), 10), (s("a"), 3), (s("b"), 0)]);
}

#[test]
fn rank_of_nothing_is_nothing() {
    assert_eq!(rank(vec![]), vec![]);
}

#[test]
fn rank_catalog_defaults_missing_values() {
    let reg = Registry {
        entries: vec![(s("nvim"), SourceValue::Many(vec![s("u1"), s("u2")]))],
    };
    let entries = flatten(&reg, &vec![]);
    let out = rank_catalog(&entries, &vec![1], &vec![true]);
    assert_eq!(
        out,
        vec![
            RankedEntry { type_tag: s("nvim"), source_url: s("u1"), stars: 1, installed: true },
            RankedEntry { type_tag: s("nvim"), source_url: s("u2"), stars: 0, installed: false },
        ]
    );
}

#[test]
fn registry_to_ranked_catalog_without_credential() {
    let reg = Registry {
        entries: vec![
            (s("nvim"), SourceValue::Single(s("https://github.com/a/b"))),
            (
                s("tmux"),
                SourceValue::Many(vec![s("https://github.com/c/d"), s("https://gitlab.com/e/f")]),
            ),
        ],
    };
    let entries = flatten(&reg, &vec![]);
    let links: Vec<String> = entries.iter().map(|e| e.source_url.clone()).collect();
    let mut lookup = StarLookup::new(links, false);
    loop {
        let reply = match lookup.next_request() {
            Request::Finished => break,
            Request::Rest { url } if url.ends_with("/a/b") => Reply::Body(s("{\"stargazers_count\":42}")),
            Request::Rest { url } if url.ends_with("/c/d") => Reply::Body(s("{\"stargazers_count\":5}")),
            _ => Reply::Failed,
        };
        lookup.on_reply(reply);
    }
    let stars = lookup.stars_by_link();
    let out = rank_catalog(&entries, &stars, &vec![false, true, false]);
    let order: Vec<(String, u64)> = out.iter().map(|e| (e.source_url.clone(), e.stars)).collect();
    assert_eq!(
        order,
        vec![
            (s("https://github.com/a/b"), 42),
            (s("https://github.com/c/d"), 5),
            (s("https://gitlab.com/e/f"), 0),
        ]
    );
    assert!(out[1].installed);
    assert_eq!(catalog_notes(false, lookup.bulk_failed()), vec![Note::SetToken]);
}

#[test]
fn table_cells_give_rank_stars_flag_and_source() {
    let rows = vec![
        RankedEntry { type_tag: s("t"), source_url: s("u1"), stars: 1234, installed: true },
        RankedEntry { type_tag: s("t"), source_url: s("u2"), stars: 0, installed: false },
    ];
    assert_eq!(
        table_cells(&rows),
        vec![
            vec![s("1"), s("1234"), s("y"), s("u1")],
            vec![s("2"), s("0"), s("n"), s("u2")],
        ]
    );
}

#[test]
fn table_cells_of_large_counts() {
    let rows = vec![row("u", u64::MAX)];
    assert_eq!(table_cells(&rows)[0][1], u64::MAX.to_string());
}

#[test]
fn notes_follow_credential_and_fallback() {
    assert_eq!(catalog_notes(true, false), vec![]);
    assert_eq!(catalog_notes(true, true), vec![Note::BulkFellBack]);
    assert_eq!(catalog_notes(false, false), vec![Note::SetToken]);
}

#[test]
fn spinner_cycles_through_four_frames() {
    let frames: Vec<&str> = (0..6).map(spinner_frame).collect();
    assert_eq!(frames, vec!["-", "\\", "|", "/", "-", "\\"]);
}

#[test]
fn config_defaults_and_override() {
    let c = HubConfig::default();
    assert_eq!(c.store_dir, "/usr/local/share/dothub");
    assert_eq!(
        c.registry_source(None),
        "https://raw.githubusercontent.com/huncholane/dothub/refs/heads/main/hub.yml"
    );
    assert_eq!(c.registry_source(Some(s("https://example.com/hub.yml"))), "https://example.com/hub.yml");
    assert_eq!(token_help_url(), "https://github.com/settings/personal-access-tokens");
}
