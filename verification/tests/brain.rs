use noted_core::brain::{
    content_hash, extract_managed, extract_wikilinks, folder_to_type, parse_note, slug_from_path,
    vault_norm, MANAGED_BEGIN, MANAGED_END,
};

const YI: &str = "---\nname: yi\ntitle: Yi — Amazon AI agent engineer (peer sounding board)\ntype: person\nstatus: active\ntags: [baro, peer, architecture]\ncreated: 2026-06-20\n---\n\n**AI agent engineer at Amazon**. See [[hitl-two-risk-classes]] and\n[[raw-vs-serving-feature-store]]. Also [[yi]] self-link should drop.\n";

#[test]
fn parses_person_note() {
    let n = parse_note("baro", "people/yi.md", YI);
    assert_eq!(n.slug, "yi");
    assert_eq!(n.etype, "person");
    assert_eq!(n.display_name, "Yi");
    assert_eq!(n.status.as_deref(), Some("active"));
    assert_eq!(n.tags, vec!["baro", "peer", "architecture"]);
    assert_eq!(n.wikilinks, vec!["hitl-two-risk-classes", "raw-vs-serving-feature-store"]);
    assert!(n.aliases.iter().any(|a| a.contains("Amazon AI agent engineer")));
}

#[test]
fn folder_maps_to_type() {
    assert_eq!(folder_to_type("people/yi.md"), "person");
    assert_eq!(folder_to_type("projects/baro.md"), "project");
    assert_eq!(folder_to_type("projects/orchestration/prd.md"), "project");
    assert_eq!(folder_to_type("decisions/hitl.md"), "decision");
    assert_eq!(folder_to_type("references/architecture.md"), "reference");
    assert_eq!(folder_to_type("00-inbox/scratch.md"), "doc");
}

#[test]
fn vault_norm_scopes_artifacts_but_not_people() {
    assert_eq!(vault_norm("baro", "person", "Yi"), "yi");
    assert_eq!(vault_norm("profound", "person", "yi"), "yi");
    assert_eq!(vault_norm("baro", "reference", "Architecture"), "baro:architecture");
    assert_eq!(vault_norm("profound", "reference", "architecture"), "profound:architecture");
    assert_ne!(
        vault_norm("baro", "reference", "architecture"),
        vault_norm("profound", "reference", "architecture")
    );
}

#[test]
fn wikilink_variants() {
    let links = extract_wikilinks("[[plain]] [[target|label]] [[note#heading]] [[plain]] text");
    assert_eq!(links, vec!["plain", "target", "note"]);
}

#[test]
fn frontmatter_type_overrides_folder() {
    let raw = "---\nname: edison\ntype: person\n---\nbody";
    let n = parse_note("baro", "references/edison.md", raw);
    assert_eq!(n.etype, "person");
    assert_eq!(n.display_name, "Edison");
}

#[test]
fn no_frontmatter_is_doc() {
    let n = parse_note("personal", "00-inbox/idea.md", "just a thought with [[a-link]]");
    assert_eq!(n.etype, "doc");
    assert_eq!(n.slug, "idea");
    assert_eq!(n.wikilinks, vec!["a-link"]);
    assert!(n.tags.is_empty());
}

#[test]
fn extracts_managed_region() {
    let body = format!("hand-written\n{MANAGED_BEGIN}\ncaptured stuff\n{MANAGED_END}\nmore");
    assert_eq!(extract_managed(&body).as_deref(), Some("captured stuff"));
    assert_eq!(extract_managed("no region here"), None);
}

#[test]
fn hash_is_stable_and_content_sensitive() {
    assert_eq!(content_hash("abc"), content_hash("abc"));
    assert_ne!(content_hash("abc"), content_hash("abd"));
    assert_eq!(content_hash("abc").len(), 64);
}

#[test]
fn content_hash_is_the_known_sha256_of_abc() {
    assert_eq!(
        content_hash("abc"),
        "ba7816bf8f01cfea414140de5dae2223b00361a396177a9cb410ff61f20015ad"
    );
}

#[test]
fn slug_is_the_stem_of_the_last_segment() {
    assert_eq!(slug_from_path("people/Brian-Cho.md"), "brian-cho");
    assert_eq!(slug_from_path("people/notes.txt"), "notes");
    assert_eq!(slug_from_path("notes/readme"), "readme");
    assert_eq!(slug_from_path("vault/.hidden"), ".hidden");
    assert_eq!(slug_from_path("a/Archive.tar.md"), "archive.tar");
}

#[test]
fn crlf_fence_quoted_values_and_comments() {
    let raw = "\u{feff}---\r\n# comment\r\nname: 'Alpha'\r\ntitle: \"Alpha: the first\"\r\naliases: [a1, \"a2\", ]\r\n---\r\nsee [[Beta|b]] and [[ gamma#x ]]";
    let n = parse_note("v", "projects/alpha.md", raw);
    assert_eq!(n.slug, "alpha");
    assert_eq!(n.etype, "project");
    assert_eq!(n.display_name, "Alpha");
    assert_eq!(n.aliases, vec!["a1", "a2", "Alpha: the first"]);
    assert_eq!(n.wikilinks, vec!["beta", "gamma"]);
}

#[test]
fn unterminated_fence_is_body_and_humanizes_slug() {
    let raw = "---\nname: x\nbody without fence [[link]]";
    let n = parse_note("v", "people/jane_doe-smith.md", raw);
    assert_eq!(n.slug, "jane_doe-smith");
    assert_eq!(n.display_name, "Jane Doe Smith");
    assert_eq!(n.etype, "person");
    assert_eq!(n.wikilinks, vec!["link"]);
}

#[test]
fn unclosed_wikilink_ends_the_scan() {
    assert_eq!(extract_wikilinks("[[a]] [[b [[c"), vec!["a"]);
    assert!(extract_wikilinks("[[ ]] [[|x]]").is_empty());
}

#[test]
fn unknown_frontmatter_types_fall_back_to_one_of_the_five() {
    let raw = "---\ntype: Meeting\n---\nbody";
    let n = parse_note("v", "decisions/q3.md", raw);
    assert_eq!(n.etype, "decision");
    let n = parse_note("v", "misc/q3.md", "---\ntype:  NOTE \n---\nbody");
    assert_eq!(n.etype, "doc");
}

#[test]
fn wikilinks_are_trimmed_lowercased_and_distinct() {
    let links = extract_wikilinks("[[ Alpha ]] [[alpha|A]] [[BETA#x]] [[beta]] [[  ]]");
    assert_eq!(links, vec!["alpha", "beta"]);
}
