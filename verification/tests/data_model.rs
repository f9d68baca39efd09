use chrono::{Datelike, Timelike};
use ghost2zola::data_model::{
    footnote_marker, format_year, highest_footnote, pad_with_zeros, reify_footnotes,
    relative_internal_links, relative_path_for, strip_datetime_quotes, Extra, Post, PostRow,
    Status, Taxonomies, Timestamp,
};
use ghost2zola::text::{decimal, parse_number, take_replaced};

fn replace_links(example: &str, expect: &str) {
    assert_eq!(relative_internal_links(example), expect);
}

fn fancy_post() -> Post {
    Post {
        title: "Fancy Example Post".into(),
        content: "I'm so fancy, I have paragraphs.\n\nSee!?".into(),
        description: String::new(),
        date: None,
        updated: None,
        status: Status::Draft,
        slug: "fancy-example-post".into(),
        extra: Extra { id: 123, language: "en_EN".into(), author_name: "me".into() },
        taxonomies: Taxonomies::new(vec!["tag1".into(), "another".into()]),
    }
}

fn stamp(moment: chrono::DateTime<chrono::Utc>) -> Timestamp {
    Timestamp {
        year: moment.year(),
        month: moment.month(),
        day: moment.day(),
        hour: moment.hour(),
        minute: moment.minute(),
        second: moment.second(),
        nanosecond: moment.nanosecond(),
    }
}

fn date_text(stamp: &Timestamp) -> String {
    format!(
        "{:04}-{:02}-{:02}T{:02}:{:02}:{:02}.{:09}Z",
        stamp.year, stamp.month, stamp.day, stamp.hour, stamp.minute, stamp.second, stamp.nanosecond
    )
}

fn serialize(post: &Post) -> String {
    let keys = post.front_matter();
    let mut table = toml::Table::new();
    table.insert("title".into(), toml::Value::String(keys.title));
    if let Some(slug) = keys.slug {
        table.insert("slug".into(), toml::Value::String(slug));
    }
    if let Some(description) = keys.description {
        table.insert("description".into(), toml::Value::String(description));
    }
    if let Some(date) = keys.date {
        table.insert("date".into(), toml::Value::String(date_text(&date)));
    }
    if let Some(updated) = keys.updated {
        table.insert("updated".into(), toml::Value::String(date_text(&updated)));
    }
    if let Some(draft) = keys.draft {
        table.insert("draft".into(), toml::Value::Boolean(draft));
    }
    let mut extra = toml::Table::new();
    extra.insert("id".into(), toml::Value::Integer(keys.extra.id));
    extra.insert("language".into(), toml::Value::String(keys.extra.language));
    extra.insert("author_name".into(), toml::Value::String(keys.extra.author_name));
    table.insert("extra".into(), toml::Value::Table(extra));
    let tags = keys.taxonomies.tags().iter().cloned().map(toml::Value::String).collect();
    let mut taxonomies = toml::Table::new();
    taxonomies.insert("tags".into(), toml::Value::Array(tags));
    table.insert("taxonomies".into(), toml::Value::Table(taxonomies));
    toml::to_string(&table).unwrap()
}

#[test]
fn can_render() {
    let post = fancy_post();

    println!("{}", post.render(&serialize(&post)));
    println!("=== next post ===");

    let post = Post {
        date: Some(stamp(chrono::Utc::now())),
        status: Status::Published,
        content: post.content + "\n\nAll Done",
        ..post
    };

    println!("{}", post.render(&serialize(&post)));
}

#[test]
fn test_should_replace_link() {
    replace_links("![](/content/images/2020/01/asdf.jpg)", "![](/blog/2020/01/asdf.jpg)");
}

#[test]
fn test_should_skip_external_link() {
    let external = "![](https://photobucket.com/content/images/2020/01/asdf.jpg)";
    replace_links(external, external);
}

#[test]
fn test_leaves_extra_markup() {
    replace_links(
        "![very important pictures](/content/images/1234/56/fds.png)",
        "![very important pictures](/blog/1234/56/fds.png)",
    );
}

#[test]
fn test_big() {
    let gallery = "
            Hello, welcome to my gallery. I've included several pictures.

            ![](/content/images/2020/01/asdf.jpg)
            ![](https://photobucket.com/content/images/2020/01/asdf.jpg)
            ![very important pictures](/content/images/1234/56/fds.png)

            As you can see, they are phenomenal.
            ";

    let expect = "
            Hello, welcome to my gallery. I've included several pictures.

            ![](/blog/2020/01/asdf.jpg)
            ![](https://photobucket.com/content/images/2020/01/asdf.jpg)
            ![very important pictures](/blog/1234/56/fds.png)

            As you can see, they are phenomenal.
            ";

    replace_links(gallery, expect);
}

#[test]
fn strip_quotes_from_date() {
    let input = r#"
title = "Fancy Example Post"
slug = "fancy-example-post"
date = "2020-10-23T20:13:54.069963100Z"

[extra]
id = 123
language = "en_EN"
author_name = "me"

[taxonomies]
tags = ["tag1", "another"]
"#;
    let expect = r#"
title = "Fancy Example Post"
slug = "fancy-example-post"
date = 2020-10-23T20:13:54.069963100Z

[extra]
id = 123
language = "en_EN"
author_name = "me"

[taxonomies]
tags = ["tag1", "another"]
"#;
    assert_eq!(strip_datetime_quotes(input), expect);
}

#[test]
fn strip_quotes_from_update() {
    let input = r#"
title = "Fancy Example Post"
slug = "fancy-example-post"
date = "2020-10-23T20:13:54.069963100Z"
updated = "2020-10-23T20:13:54.069963101Z"

[extra]
id = 123
language = "en_EN"
author_name = "me"

[taxonomies]
tags = ["tag1", "another"]
"#;
    let expect = r#"
title = "Fancy Example Post"
slug = "fancy-example-post"
date = 2020-10-23T20:13:54.069963100Z
updated = 2020-10-23T20:13:54.069963101Z

[extra]
id = 123
language = "en_EN"
author_name = "me"

[taxonomies]
tags = ["tag1", "another"]
"#;
    assert_eq!(strip_datetime_quotes(input), expect);
}

#[test]
fn test_reify_footnotes_basic() {
    let input = "
Lorem ipsum dolor sit amet, consectetur adipiscing elit[^n]. Aenean sollicitudin velit tellus, in dignissim tellus venenatis pulvinar.
Suspendisse rhoncus nisi purus, ut convallis lectus placerat[^n] eget. Integer imperdiet eu nibh vitae tempor. Etiam at tristique enim.
Mauris malesuada nibh sit amet ligula mollis, eu interdum ipsum[^n] faucibus. Ut rutrum sapien ligula, at dapibus dui vestibulum id. Donec bibendum
felis finibus rhoncus gravida. Nulla facilisi. Aenean lacinia consectetur condimentum. Curabitur venenatis erat ex[^n], non auctor lorem sodales sit amet.
Nam id ultrices mauris, et malesuada nisl. Aenean diam risus[^n], lobortis eget accumsan vitae, accumsan non eros. Quisque ac tincidunt quam,
gravida tempor magna. Praesent pretium[^n] bibendum ante, et varius orci fermentum ac. Proin a tortor a nunc placerat pellentesque id ac ligula.

[^n]: Duis commodo venenatis efficitur.
[^n]: Aliquam semper convallis augue, non faucibus mauris commodo non. Pellentesque eget velit sed nunc lacinia tempus ac non erat.
[^n]: Donec vel augue in arcu porttitor interdum.
[^n]: Nunc consequat, risus ut scelerisque ornare, erat ligula ullamcorper turpis, sit amet eleifend justo lorem id ipsum.
[^n]: Interdum et malesuada fames ac ante ipsum primis in faucibus.
[^n]: Nullam eget nunc eget ante auctor finibus sit amet vitae tortor.
        ".trim();

    let expect = "
Lorem ipsum dolor sit amet, consectetur adipiscing elit[^1]. Aenean sollicitudin velit tellus, in dignissim tellus venenatis pulvinar.
Suspendisse rhoncus nisi purus, ut convallis lectus placerat[^2] eget. Integer imperdiet eu nibh vitae tempor. Etiam at tristique enim.
Mauris malesuada nibh sit amet ligula mollis, eu interdum ipsum[^3] faucibus. Ut rutrum sapien ligula, at dapibus dui vestibulum id. Donec bibendum
felis finibus rhoncus gravida. Nulla facilisi. Aenean lacinia consectetur condimentum. Curabitur venenatis erat ex[^4], non auctor lorem sodales sit amet.
Nam id ultrices mauris, et malesuada nisl. Aenean diam risus[^5], lobortis eget accumsan vitae, accumsan non eros. Quisque ac tincidunt quam,
gravida tempor magna. Praesent pretium[^6] bibendum ante, et varius orci fermentum ac. Proin a tortor a nunc placerat pellentesque id ac ligula.

[^1]: Duis commodo venenatis efficitur.
[^2]: Aliquam semper convallis augue, non faucibus mauris commodo non. Pellentesque eget velit sed nunc lacinia tempus ac non erat.
[^3]: Donec vel augue in arcu porttitor interdum.
[^4]: Nunc consequat, risus ut scelerisque ornare, erat ligula ullamcorper turpis, sit amet eleifend justo lorem id ipsum.
[^5]: Interdum et malesuada fames ac ante ipsum primis in faucibus.
[^6]: Nullam eget nunc eget ante auctor finibus sit amet vitae tortor.
        ".trim();

    assert_eq!(reify_footnotes(input), expect);
}

#[test]
fn links_match_in_either_case() {
    replace_links("[a](/Content/Images/2020/01/a.png)", "[a](/blog/2020/01/a.png)");
}

#[test]
fn link_without_year_and_month_stays() {
    let plain = "![](/content/images/logo.png)";
    replace_links(plain, plain);
}

#[test]
fn quoted_strings_elsewhere_keep_their_quotes() {
    let input = "title = \"date = 2020\"\nnote = \"2020-10-23\"\n";
    assert_eq!(strip_datetime_quotes(input), input);
}

#[test]
fn footnotes_count_on_from_the_highest_number() {
    let input = "one[^3] two[^n] three[^n]\n\n[^3]: c\n[^n]: d\n[^n]: e";
    let expect = "one[^3] two[^4] three[^5]\n\n[^3]: c\n[^4]: d\n[^5]: e";
    assert_eq!(reify_footnotes(input), expect);
}

#[test]
fn text_without_placeholders_is_unchanged() {
    let input = "nothing to see[^1]\n\n[^1]: here";
    assert_eq!(reify_footnotes(input), input);
}

#[test]
fn a_placeholder_before_a_colon_inside_a_line_is_kept() {
    let input = "text [^n]: not at the start\n[^n]: at the start";
    let expect = "text [^n]: not at the start\n[^1]: at the start";
    assert_eq!(reify_footnotes(input), expect);
}

#[test]
fn references_are_numbered_wherever_they_stand() {
    let input = "[^n] a[^n][^n] b [^n]\nc[^n]";
    let expect = "[^1] a[^2][^3] b [^4]\nc[^5]";
    assert_eq!(reify_footnotes(input), expect);
    assert_eq!(reify_footnotes("[^n]"), "[^1]");
    assert_eq!(reify_footnotes("[^N]"), "[^N]");
    assert_eq!(reify_footnotes("\n[^n]: x\n  [^n]: y"), "\n[^1]: x\n  [^n]: y");
}

#[test]
fn highest_footnote_takes_the_greatest() {
    let groups = vec![Some("2".to_string()), None, Some("17".to_string()), Some("5".to_string())];
    assert_eq!(highest_footnote(&groups), 17);
    assert_eq!(highest_footnote(&Vec::new()), 0);
    assert_eq!(highest_footnote(&vec![Some("99999999999".to_string())]), 0);
}

#[test]
fn markers_are_written_in_decimal() {
    assert_eq!(footnote_marker(7, false), "[^7]");
    assert_eq!(footnote_marker(12, true), "[^12]:");
    assert_eq!(footnote_marker(4294967296, false), "[^4294967296]");
}

#[test]
fn numbers_are_written_and_read() {
    assert_eq!(decimal(0), "0");
    assert_eq!(decimal(10), "10");
    assert_eq!(decimal(18446744073709551615), "18446744073709551615");
    assert_eq!(parse_number("0"), 0);
    assert_eq!(parse_number("0042"), 42);
    assert_eq!(parse_number("4294967295"), 4294967295);
    assert_eq!(parse_number("4294967296"), 0);
    assert_eq!(parse_number(""), 0);
    assert_eq!(parse_number("12a"), 0);
    assert_eq!(parse_number("+5"), 0);
}

#[test]
fn numbers_are_padded_with_zeros() {
    assert_eq!(pad_with_zeros(5, 2), "05");
    assert_eq!(pad_with_zeros(12, 2), "12");
    assert_eq!(pad_with_zeros(123, 2), "123");
    assert_eq!(pad_with_zeros(0, 4), "0000");
}

#[test]
fn years_have_four_digits_or_a_sign() {
    assert_eq!(format_year(2021), "2021");
    assert_eq!(format_year(33), "0033");
    assert_eq!(format_year(0), "0000");
    assert_eq!(format_year(-1), "-0001");
    assert_eq!(format_year(10000), "+10000");
    assert_eq!(format_year(-12345), "-12345");
}

#[test]
fn status_reads_anything_but_published_as_draft() {
    assert_eq!(Status::from_str("published"), Ok(Status::Published));
    assert_eq!(Status::from_str("draft"), Ok(Status::Draft));
    assert_eq!(Status::from_str("scheduled"), Ok(Status::Draft));
    assert_eq!(Status::from_str(""), Ok(Status::Draft));
    assert_eq!(Status::from_str("Published"), Ok(Status::Draft));
    assert_eq!("published".parse::<Status>(), Ok(Status::Published));
    assert_eq!("anything".parse::<Status>(), Ok(Status::Draft));
    assert!(Status::Draft.draft());
    assert!(!Status::Draft.published());
    assert!(Status::Published.published());
    assert!(!Status::Published.draft());
}

#[test]
fn explicit_slug_wins() {
    let post = fancy_post();
    assert_eq!(post.slug(), "fancy-example-post");
    let post = Post { title: "Another Title".into(), ..post };
    assert_eq!(post.slug(), "fancy-example-post");
}

#[test]
fn slug_is_derived_from_the_title() {
    let post = Post { slug: String::new(), ..fancy_post() };
    assert_eq!(post.slug(), "fancy-example-post");
    let post = Post { title: "Hello, World! 2".into(), ..post };
    assert_eq!(post.slug(), "hello-world-2");
}

#[test]
fn long_titles_are_cut_to_150() {
    let post = Post { slug: String::new(), title: "abcdefghi ".repeat(40), ..fancy_post() };
    let slug = post.slug();
    assert_eq!(slug.len(), 149);
    assert!(slug.starts_with("abcdefghi-abcdefghi-"));
    assert!(slug.ends_with("abcdefghi"));
    let post = Post { title: "a".repeat(400), ..post };
    assert_eq!(post.slug(), "a".repeat(150));
}

#[test]
fn post_without_title_and_slug_gets_an_identifier() {
    let post = Post { slug: String::new(), title: String::new(), ..fancy_post() };
    let first = post.slug();
    let second = post.slug();
    assert_eq!(first.chars().count(), 36);
    assert_eq!(second.chars().count(), 36);
    assert_ne!(first, second);
}

#[test]
fn dated_posts_go_by_year_month_and_day() {
    let date = Timestamp {
        year: 2021,
        month: 5,
        day: 3,
        hour: 10,
        minute: 0,
        second: 0,
        nanosecond: 0,
    };
    assert_eq!(relative_path_for(Some(date), "my-post"), vec!["2021", "05", "03", "my-post.md"]);
    assert_eq!(relative_path_for(None, "my-post"), vec!["undated", "my-post.md"]);
    let post = Post { date: Some(date), ..fancy_post() };
    assert_eq!(post.relative_path(), vec!["2021", "05", "03", "fancy-example-post.md"]);
    assert_eq!(fancy_post().relative_path(), vec!["undated", "fancy-example-post.md"]);
}

#[test]
fn front_matter_leaves_out_what_is_empty() {
    let keys = fancy_post().front_matter();
    assert_eq!(keys.title, "Fancy Example Post");
    assert_eq!(keys.slug, Some("fancy-example-post".to_string()));
    assert_eq!(keys.description, None);
    assert_eq!(keys.date, None);
    assert_eq!(keys.updated, None);
    assert_eq!(keys.draft, Some(true));
    assert_eq!(keys.extra.id, 123);
    assert_eq!(keys.extra.language, "en_EN");
    assert_eq!(keys.extra.author_name, "me");
    assert_eq!(keys.taxonomies.tags(), &vec!["tag1".to_string(), "another".to_string()]);

    let published = Post {
        status: Status::Published,
        slug: String::new(),
        description: "about".into(),
        ..fancy_post()
    };
    let keys = published.front_matter();
    assert_eq!(keys.draft, None);
    assert_eq!(keys.slug, None);
    assert_eq!(keys.description, Some("about".to_string()));
}

#[test]
fn document_frames_front_matter_and_content() {
    let post = Post { content: "Body[^n]\n\n[^n]: note".into(), ..fancy_post() };
    let rendered = post.render("title = \"T\"\ndate = \"2020-10-23T20:13:54Z\"\n");
    assert_eq!(
        rendered,
        "+++\ntitle = \"T\"\ndate = 2020-10-23T20:13:54Z\n\n+++\n\nBody[^1]\n\n[^1]: note"
    );
    let mut out = String::from("before\n");
    post.render_to("a = 1", &mut out);
    assert_eq!(out, "before\n+++\na = 1\n+++\n\nBody[^1]\n\n[^1]: note");
    assert_eq!(post.render_toml("updated = \"2020-10-23\""), "updated = 2020-10-23");
}

#[test]
fn rows_become_posts() {
    let row = PostRow {
        id: 7,
        title: "T".into(),
        markdown: Some("![](/content/images/2020/01/a.jpg)".into()),
        meta_description: None,
        published_at: None,
        updated_at: None,
        status: "published".into(),
        slug: "t".into(),
        language: "en".into(),
        author_name: "me".into(),
        tags: vec!["x".into(), "y".into()],
    };
    let lost = PostRow {
        id: 8,
        title: "U".into(),
        markdown: None,
        meta_description: Some("d".into()),
        published_at: None,
        updated_at: None,
        status: "scheduled".into(),
        slug: String::new(),
        language: "en".into(),
        author_name: "you".into(),
        tags: Vec::new(),
    };
    let posts = Post::query(&vec![row, lost]);
    assert_eq!(posts.len(), 2);
    assert_eq!(posts[0].content, "![](/blog/2020/01/a.jpg)");
    assert_eq!(posts[0].description, "");
    assert_eq!(posts[0].status, Status::Published);
    assert_eq!(posts[0].extra.id, 7);
    assert_eq!(posts[0].taxonomies.tags(), &vec!["x".to_string(), "y".to_string()]);
    assert_eq!(posts[1].content, "");
    assert_eq!(posts[1].description, "d");
    assert_eq!(posts[1].status, Status::Draft);
    assert_eq!(posts[1].extra.author_name, "you");
    assert!(posts[1].taxonomies.tags().is_empty());
}

#[test]
fn tags_are_replaced() {
    let mut post = fancy_post();
    post.update_tags(vec!["new".into()]);
    assert_eq!(post.taxonomies.tags(), &vec!["new".to_string()]);
    assert_eq!(post.title, "Fancy Example Post");
}

#[test]
fn directories_are_named_as_the_calendar_writes_them() {
    for year in [-12345, -100, -1, 0, 1, 33, 999, 1000, 2021, 9999, 10000, 123456] {
        let date = chrono::NaiveDate::from_ymd_opt(year, 2, 3).unwrap();
        assert_eq!(format_year(year), date.format("%Y").to_string());
    }
    for (month, day) in [(1, 1), (9, 9), (10, 10), (12, 31)] {
        let date = chrono::NaiveDate::from_ymd_opt(2020, month, day).unwrap();
        assert_eq!(pad_with_zeros(month as u64, 2), date.format("%m").to_string());
        assert_eq!(pad_with_zeros(day as u64, 2), date.format("%d").to_string());
    }
}

#[test]
fn numbers_read_as_std_reads_digits() {
    for text in ["0", "7", "0042", "4294967295", "4294967296", "99999999999999999999", ""] {
        assert_eq!(parse_number(text), text.parse::<u32>().unwrap_or_default());
    }
    for n in [0u64, 9, 10, 99, 100, 12345, u32::MAX as u64, u64::MAX] {
        assert_eq!(decimal(n), n.to_string());
    }
}

#[test]
fn defaults_are_empty() {
    let extra = Extra::default();
    assert_eq!(extra.id, 0);
    assert_eq!(extra.language, "");
    assert_eq!(extra.author_name, "");
    assert!(Taxonomies::default().tags().is_empty());
}

#[test]
fn a_replacement_that_cannot_be_made_leaves_the_text() {
    assert_eq!(take_replaced(Some("new".to_string()), "old"), "new");
    assert_eq!(take_replaced(None, "old"), "old");
}
