use wordpress_to_zola::front_matter::{escape_quotes, quoted_list, render_page,
    render_section_index};
use wordpress_to_zola::model::{Category, Channel, Item, PostType, Status};
use wordpress_to_zola::normalize::normalize_line_breaks;
use wordpress_to_zola::paths::{generate_path, section_index_file, section_of_path};
use wordpress_to_zola::pipeline::{convert_channel, ConvertError};
use wordpress_to_zola::taxonomy::split_taxonomies;

fn cat(domain: &str, nicename: &str) -> Category {
    Category { domain: domain.to_string(), nicename: nicename.to_string() }
}

fn post(title: &str, link: &str, date: &str, body: &str, cats: Vec<Category>) -> Item {
    Item {
        title: title.to_string(),
        link: link.to_string(),
        pub_date: date.to_string(),
        post_type: PostType::Post,
        status: Status::Publish,
        encoded: vec![body.to_string()],
        categories: cats,
    }
}

#[test]
fn normalize_crlf_gives_one_break() {
    let out = normalize_line_breaks("line1\r\nline2");
    assert_eq!(out, "line1<br>line2");
    assert_eq!(out.matches("<br>").count(), 1);
}

#[test]
fn normalize_handles_each_line_ending() {
    assert_eq!(normalize_line_breaks("a\nb"), "a<br>b");
    assert_eq!(normalize_line_breaks("a\rb"), "a<br>b");
    assert_eq!(normalize_line_breaks("\r\n"), "<br>");
    assert_eq!(normalize_line_breaks(""), "");
    assert_eq!(normalize_line_breaks("plain"), "plain");
    assert_eq!(normalize_line_breaks("a\r\r\nb"), "a<br><br>b");
}

#[test]
fn generate_path_strips_base_and_slashes() {
    assert_eq!(
        generate_path("https://example.com", "https://example.com/2020/01/hello-world/"),
        "2020/01/hello-world.md"
    );
    assert_eq!(generate_path("https://example.com", "https://example.com/post"), "post.md");
}

#[test]
fn generate_path_foreign_link_kept_whole() {
    assert_eq!(
        generate_path("https://example.com", "https://other.net/a/b/"),
        "https://other.net/a/b.md"
    );
}

#[test]
fn generate_path_link_equal_to_base() {
    assert_eq!(generate_path("https://example.com", "https://example.com"), ".md");
}

#[test]
fn section_of_path_is_parent_directory() {
    assert_eq!(section_of_path("2020/01/hello-world.md"), "2020/01");
    assert_eq!(section_of_path("post.md"), "");
}

#[test]
fn section_index_file_paths() {
    assert_eq!(section_index_file(""), "_index.md");
    assert_eq!(section_index_file("2020/01"), "2020/01/_index.md");
}

#[test]
fn taxonomy_round_trip() {
    let cats = vec![cat("category", "news"), cat("post_tag", "rust"), cat("post_tag", "zola")];
    let (categories, tags) = split_taxonomies(&cats);
    assert_eq!(categories, vec!["news".to_string()]);
    assert_eq!(tags, vec!["rust".to_string(), "zola".to_string()]);
}

#[test]
fn taxonomy_ignores_unknown_domain_and_keeps_duplicates() {
    let cats = vec![
        cat("author", "alice"),
        cat("post_tag", "rust"),
        cat("post_tag", "rust"),
        cat("category", "news"),
    ];
    let (categories, tags) = split_taxonomies(&cats);
    assert_eq!(categories, vec!["news".to_string()]);
    assert_eq!(tags, vec!["rust".to_string(), "rust".to_string()]);
}

#[test]
fn escape_quotes_only_doubles_quotes() {
    assert_eq!(escape_quotes("Hi \"there\""), "Hi \\\"there\\\"");
    assert_eq!(escape_quotes("no quotes"), "no quotes");
}

#[test]
fn quoted_list_renders_inline_array_body() {
    assert_eq!(quoted_list(&vec![]), "");
    assert_eq!(quoted_list(&vec!["a".to_string()]), "\"a\"");
    assert_eq!(quoted_list(&vec!["a".to_string(), "b".to_string()]), "\"a\", \"b\"");
}

#[test]
fn section_index_has_fixed_front_matter() {
    assert_eq!(
        render_section_index(),
        "+++\ntransparent = true\nsort_by = \"date\"\npaginate_by = 5\n+++\n"
    );
}

#[test]
fn page_front_matter_layout() {
    let page = render_page(
        "T",
        "2020-01-01T00:00:00+00:00",
        "body",
        &vec!["news".to_string()],
        &vec![],
    );
    assert_eq!(
        page,
        "+++\ntitle = \"T\"\ndate = 2020-01-01T00:00:00+00:00\n[taxonomies]\ncategories = [\"news\"]\ntags = []\n+++\nbody\n"
    );
}

#[test]
fn end_to_end_single_published_post() {
    let channel = Channel {
        base_site_url: "https://example.com".to_string(),
        items: vec![post(
            "Hi \"there\"",
            "https://example.com/2020/01/hello-world/",
            "Wed, 01 Jan 2020 00:00:00 +0000",
            "<p>Hello<br></p>",
            vec![cat("category", "news")],
        )],
    };
    let files = convert_channel(&channel).unwrap();
    assert_eq!(files.len(), 2);
    assert_eq!(files[0].path, "2020/01/_index.md");
    assert_eq!(
        files[0].content,
        "+++\ntransparent = true\nsort_by = \"date\"\npaginate_by = 5\n+++\n"
    );
    assert_eq!(files[1].path, "2020/01/hello-world.md");
    let expected_front = "+++\ntitle = \"Hi \\\"there\\\"\"\ndate = 2020-01-01T00:00:00+00:00\n[taxonomies]\ncategories = [\"news\"]\ntags = []\n+++\n";
    assert!(files[1].content.starts_with(expected_front), "got: {}", files[1].content);
    let body = &files[1].content[expected_front.len()..];
    assert!(body.contains("Hello"), "got body: {}", body);
    assert!(!body.contains("<p>"), "markdown body still holds html: {}", body);
}

#[test]
fn unpublished_items_produce_nothing() {
    let mut draft = post("d", "https://e.com/d/", "Wed, 01 Jan 2020 00:00:00 +0000", "x", vec![]);
    draft.status = Status::Draft;
    let mut private = post("p", "https://e.com/p/", "Wed, 01 Jan 2020 00:00:00 +0000", "x", vec![]);
    private.status = Status::Private;
    let mut inherit = post("i", "https://e.com/i/", "Wed, 01 Jan 2020 00:00:00 +0000", "x", vec![]);
    inherit.status = Status::Inherit;
    let channel = Channel {
        base_site_url: "https://e.com".to_string(),
        items: vec![draft, private, inherit],
    };
    let files = convert_channel(&channel).unwrap();
    assert_eq!(files.len(), 0);
}

#[test]
fn attachments_produce_nothing_even_when_published() {
    let mut attachment =
        post("a", "https://e.com/a/", "Wed, 01 Jan 2020 00:00:00 +0000", "x", vec![]);
    attachment.post_type = PostType::Attachment;
    let channel =
        Channel { base_site_url: "https://e.com".to_string(), items: vec![attachment] };
    let files = convert_channel(&channel).unwrap();
    assert_eq!(files.len(), 0);
}

#[test]
fn section_index_written_once_for_shared_directory() {
    let channel = Channel {
        base_site_url: "https://e.com".to_string(),
        items: vec![
            post("one", "https://e.com/blog/one/", "Wed, 01 Jan 2020 00:00:00 +0000", "x", vec![]),
            post("two", "https://e.com/blog/two/", "Thu, 02 Jan 2020 00:00:00 +0000", "y", vec![]),
        ],
    };
    let files = convert_channel(&channel).unwrap();
    let paths: Vec<&str> = files.iter().map(|f| f.path.as_str()).collect();
    assert_eq!(paths, vec!["blog/_index.md", "blog/one.md", "blog/two.md"]);
    let index_count = files.iter().filter(|f| f.path == "blog/_index.md").count();
    assert_eq!(index_count, 1);
}

#[test]
fn unparseable_date_aborts_the_run() {
    let channel = Channel {
        base_site_url: "https://e.com".to_string(),
        items: vec![post("bad", "https://e.com/bad/", "not a date", "x", vec![])],
    };
    match convert_channel(&channel) {
        Err(e) => assert_eq!(e, ConvertError::DateUnparseable),
        Ok(_) => panic!("expected a date error"),
    }
}

#[test]
fn unparseable_date_on_skipped_item_is_ignored() {
    let mut draft = post("d", "https://e.com/d/", "not a date", "x", vec![]);
    draft.status = Status::Draft;
    let channel = Channel { base_site_url: "https://e.com".to_string(), items: vec![draft] };
    assert_eq!(convert_channel(&channel).unwrap().len(), 0);
}

#[test]
fn date_offset_is_preserved() {
    let channel = Channel {
        base_site_url: "https://e.com".to_string(),
        items: vec![post(
            "t",
            "https://e.com/t/",
            "Wed, 18 Feb 2015 23:16:09 +0330",
            "x",
            vec![],
        )],
    };
    let files = convert_channel(&channel).unwrap();
    assert!(files[1].content.contains("date = 2015-02-18T23:16:09+03:30"));
}
