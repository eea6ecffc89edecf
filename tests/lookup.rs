use dothub::popularity::{Reply, Request, StarLookup};

fn s(x: &str) -> String {
    x.to_string()
}

/// Runs a lookup to its end, answering each request with `answer`.
fn run<F: FnMut(&Request) -> Reply>(lookup: &mut StarLookup, mut answer: F) -> Vec<Request> {
    let mut seen = Vec::new();
    loop {
        let req = lookup.next_request();
        if let Request::Finished = req {
            break;
        }
        let reply = answer(&req);
        lookup.on_reply(reply);
        seen.push(req);
    }
    seen
}

#[test]
fn without_credential_each_github_url_is_asked_once() {
    let links = vec![s("https://github.com/a/b"), s("https://github.com/c/d"), s("https://gitlab.com/e/f")];
    let mut lookup = StarLookup::new(links, false);
    let seen = run(&mut lookup, |req| match req {
        Request::Rest { url } if url == "https://api.github.com/repos/a/b" => {
            Reply::Body(s("{\"stargazers_count\": 42}"))
        }
        Request::Rest { url } if url == "https://api.github.com/repos/c/d" => {
            Reply::Body(s("{\"id\": 1, \"stargazers_count\": 5}"))
        }
        _ => Reply::Failed,
    });
    assert_eq!(seen.len(), 2);
    assert_eq!(lookup.stars_by_link(), vec![42, 5, 0]);
    assert!(lookup.is_done());
    assert!(!lookup.bulk_failed());
}

#[test]
fn failing_transport_gives_zero_for_everything() {
    let links = vec![s("https://github.com/a/b"), s("not a url"), s("git@github.com:c/d.git")];
    let mut lookup = StarLookup::new(links, false);
    let seen = run(&mut lookup, |_| Reply::Failed);
    assert_eq!(seen.len(), 2);
    assert_eq!(lookup.stars_by_link(), vec![0, 0, 0]);
}

#[test]
fn malformed_rest_reply_counts_as_zero() {
    let links = vec![s("https://github.com/a/b"), s("https://github.com/c/d")];
    let mut lookup = StarLookup::new(links, false);
    run(&mut lookup, |req| match req {
        Request::Rest { url } if url.ends_with("a/b") => Reply::Body(s("<html>")),
        _ => Reply::Body(s("{\"name\": \"d\"}")),
    });
    assert_eq!(lookup.stars_by_link(), vec![0, 0]);
}

#[test]
fn nothing_resolvable_is_done_at_once() {
    let mut lookup = StarLookup::new(vec![s("https://gitlab.com/e/f")], true);
    assert!(lookup.is_done());
    let seen = run(&mut lookup, |_| Reply::Failed);
    assert!(seen.is_empty());
    assert_eq!(lookup.stars_by_link(), vec![0]);
}

#[test]
fn empty_input_gives_empty_result() {
    let mut lookup = StarLookup::new(vec![], true);
    assert!(lookup.is_done());
    assert_eq!(lookup.stars_by_link(), Vec::<u64>::new());
}

#[test]
fn bulk_request_body_is_aliased_graphql() {
    let lookup = StarLookup::new(vec![s("https://github.com/a/b")], true);
    match lookup.next_request() {
        Request::Graphql { body } => assert_eq!(
            body,
            "{\"query\":\"query { r0: repository(owner:\\\"a\\\", name:\\\"b\\\") { stargazerCount } }\"}"
        ),
        other => panic!("unexpected request {:?}", other),
    }
}

#[test]
fn bulk_query_escapes_quotes() {
    let lookup = StarLookup::new(vec![s("git@github.com:a/b\"c")], true);
    match lookup.next_request() {
        Request::Graphql { body } => {
            let v: serde_json::Value = serde_json::from_str(&body).unwrap();
            let q = v.get("query").and_then(|q| q.as_str()).unwrap().to_string();
            assert_eq!(q, "query { r0: repository(owner:\"a\", name:\"b\\\"c\") { stargazerCount } }");
        }
        other => panic!("unexpected request {:?}", other),
    }
}

#[test]
fn rest_request_names_repository_endpoint() {
    let lookup = StarLookup::new(vec![s("git@github.com:acme/tool.git")], false);
    match lookup.next_request() {
        Request::Rest { url } => assert_eq!(url, "https://api.github.com/repos/acme/tool"),
        other => panic!("unexpected request {:?}", other),
    }
}

fn alias_count(body: &str) -> usize {
    body.matches("repository(owner:").count()
}

#[test]
fn bulk_chunks_of_fifty_matched_by_alias() {
    let links: Vec<String> = (0..120).map(|i| format!("https://github.com/o/r{}", i)).collect();
    let mut lookup = StarLookup::new(links, true);
    let mut chunk = 0usize;
    let seen = run(&mut lookup, |req| match req {
        Request::Graphql { body } => {
            let n = alias_count(body);
            let base = chunk * 50;
            chunk += 1;
            // keys in reverse order: matching must go by alias, not by position
            let mut parts = Vec::new();
            for i in (0..n).rev() {
                parts.push(format!("\"r{}\": {{\"stargazerCount\": {}}}", i, base + i));
            }
            Reply::Body(format!("{{\"data\": {{{}}}}}", parts.join(", ")))
        }
        _ => Reply::Failed,
    });
    let sizes: Vec<usize> = seen
        .iter()
        .map(|r| match r {
            Request::Graphql { body } => alias_count(body),
            _ => 0,
        })
        .collect();
    assert_eq!(sizes, vec![50, 50, 20]);
    let expected: Vec<u64> = (0..120).collect();
    assert_eq!(lookup.stars_by_link(), expected);
    assert!(!lookup.bulk_failed());
}

#[test]
fn bulk_missing_alias_counts_as_zero() {
    let links = vec![s("https://github.com/a/b"), s("https://github.com/c/d")];
    let mut lookup = StarLookup::new(links, true);
    run(&mut lookup, |_| Reply::Body(s("{\"data\": {\"r1\": {\"stargazerCount\": 7}, \"r0\": null}}")));
    assert_eq!(lookup.stars_by_link(), vec![0, 7]);
    assert!(!lookup.bulk_failed());
}

#[test]
fn bulk_failure_falls_back_to_rest() {
    let links = vec![s("https://github.com/a/b"), s("https://gitlab.com/e/f"), s("https://github.com/c/d")];
    let mut lookup = StarLookup::new(links, true);
    let seen = run(&mut lookup, |req| match req {
        Request::Graphql { .. } => Reply::Failed,
        Request::Rest { url } if url.ends_with("a/b") => Reply::Body(s("{\"stargazers_count\": 3}")),
        Request::Rest { .. } => Reply::Body(s("{\"stargazers_count\": 9}")),
        Request::Finished => Reply::Failed,
    });
    assert_eq!(seen.len(), 3);
    assert!(lookup.bulk_failed());
    assert_eq!(lookup.stars_by_link(), vec![3, 0, 9]);
}

#[test]
fn undecodable_bulk_reply_discards_earlier_chunks() {
    let links: Vec<String> = (0..60).map(|i| format!("https://github.com/o/r{}", i)).collect();
    let mut lookup = StarLookup::new(links, true);
    let mut chunk = 0usize;
    run(&mut lookup, |req| match req {
        Request::Graphql { .. } => {
            chunk += 1;
            if chunk == 1 {
                Reply::Body(s("{\"data\": {\"r0\": {\"stargazerCount\": 99}}}"))
            } else {
                Reply::Body(s("not json"))
            }
        }
        _ => Reply::Failed,
    });
    assert!(lookup.bulk_failed());
    assert_eq!(lookup.stars_by_link(), vec![0u64; 60]);
}
