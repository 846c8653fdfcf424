use litdesk::export::{compose_html, compose_markdown, local_image_keys, md_to_html, b64_encode, ExportParts, ExportScope, ImageFile};

#[test]
fn b64_encodes_correctly() {
    assert_eq!(b64_encode(b"hello"), "aGVsbG8=");
    assert_eq!(b64_encode(b"Man"), "TWFu");
    assert_eq!(b64_encode(b"Ma"), "TWE=");
}

#[test]
fn md_to_html_handles_blocks() {
    let md = "# 标题\n\n正文 **加粗** 与 `代码`。\n\n| A | B |\n|---|---|\n| 1 | 2 |\n\n- 项一\n- 项二\n\n```rs\nfn main() {}\n```\n";
    let html = md_to_html(md, &Vec::new());
    assert!(html.contains("<h1>标题</h1>"));
    assert!(html.contains("<strong>加粗</strong>"));
    assert!(html.contains("<code>代码</code>"));
    assert!(html.contains("<table>"));
    assert!(html.contains("<th>A</th>"));
    assert!(html.contains("<ul>"));
    assert!(html.contains("<pre><code>fn main() {}"));
}

#[test]
fn compose_markdown_joins_sections() {
    let parts = ExportParts {
        title: "T".into(),
        original: "orig".into(),
        translated: Some("trans".into()),
        digest: Some("dig".into()),
    };
    let md = compose_markdown(&parts, "all");
    assert!(md.contains("## 原文"));
    assert!(md.contains("## 译文"));
    assert!(md.contains("## AI 拆解"));
}

#[test]
fn compose_markdown_respects_scope() {
    let parts = ExportParts {
        title: "T".into(),
        original: "ORIGINAL-BODY".into(),
        translated: Some("TRANSLATED-BODY".into()),
        digest: Some("DIGEST-BODY".into()),
    };

    let only_translated = compose_markdown(&parts, "translated");
    assert!(only_translated.contains("TRANSLATED-BODY"));
    assert!(!only_translated.contains("ORIGINAL-BODY"));
    assert!(!only_translated.contains("DIGEST-BODY"));

    let no_original = compose_markdown(&parts, "no-original");
    assert!(!no_original.contains("ORIGINAL-BODY"));
    assert!(no_original.contains("TRANSLATED-BODY"));
    assert!(no_original.contains("DIGEST-BODY"));

    let only_digest = compose_markdown(&parts, "digest");
    assert!(only_digest.contains("DIGEST-BODY"));
    assert!(!only_digest.contains("ORIGINAL-BODY"));
    assert!(!only_digest.contains("TRANSLATED-BODY"));

    let bilingual = compose_markdown(&parts, "bilingual");
    assert!(bilingual.contains("ORIGINAL-BODY"));
    assert!(bilingual.contains("TRANSLATED-BODY"));
    assert!(!bilingual.contains("DIGEST-BODY"));
}

#[test]
fn compose_html_embeds_theme() {
    let parts = ExportParts {
        title: "T".into(),
        original: "# A\n\nhello".into(),
        translated: None,
        digest: None,
    };
    let html = compose_html(&parts, &Vec::new(), "sepia", "all");
    assert!(html.contains("<!DOCTYPE html>"));
    assert!(html.contains("#f5ecd9"));
    assert!(html.contains("<h1>T</h1>"));
}

#[test]
fn scope_names_map_to_parts() {
    let s = ExportScope::parse("bilingual");
    assert!(s.original && s.translated && !s.digest);
    let s = ExportScope::parse("whatever");
    assert!(s.original && s.translated && s.digest);
}

#[test]
fn base64_length_is_four_thirds_rounded_up() {
    for n in 0..10usize {
        let data = vec![0xABu8; n];
        assert_eq!(b64_encode(&data).len(), 4 * ((n + 2) / 3));
    }
}

#[test]
fn local_image_keys_lists_local_files_only() {
    let md = "# T\n\n![fig](./images/a.png)\n\ntext\n  ![web](http://x.org/b.png)\n![data](data:image/png;base64,AAAA)\n![q](\"images/c.jpg\" \"title\")\n";
    assert_eq!(local_image_keys(md), vec!["images/a.png".to_string(), "images/c.jpg".to_string()]);
}

#[test]
fn md_to_html_embeds_local_image_found_by_key() {
    let md = "![fig](./images/a.png)";
    let keys = local_image_keys(md);
    let images: Vec<ImageFile> = keys
        .into_iter()
        .map(|k| ImageFile { path: k, extension: "png".to_string(), data: Some(b"Man".to_vec()) })
        .collect();
    let html = md_to_html(md, &images);
    assert!(html.contains("<img alt=\"fig\" src=\"data:image/png;base64,TWFu\"/>"));
}
