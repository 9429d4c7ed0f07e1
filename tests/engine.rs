use licensure::comments::{BlockComment, Comment, LineComment};
use licensure::decision::{decide, license_content, not_licensed, HeaderState};
use licensure::pattern::{trim_end, year_varying_source};
use licensure::template::{format_year, Authors, Context, CopyrightHolder, Template};
use licensure::text::{replace_all, unwrap};

fn holder(name: &str, email: Option<&str>) -> CopyrightHolder {
    CopyrightHolder { name: name.to_string(), email: email.map(|e| e.to_string()) }
}

fn context(year: &str) -> Context {
    Context {
        ident: String::from("MIT"),
        authors: Authors::from(vec![holder("Jane Doe", Some("jane@example.com"))]),
        year: Some(year.to_string()),
        unwrap_text: false,
    }
}

#[test]
fn reflow_keeps_blank_lines() {
    assert_eq!(unwrap("A\nB\n\nC"), "A B\n\nC");
}

#[test]
fn reflow_twice_is_reflow_once() {
    let texts = ["a\nb\n\n\nc\nd", "\nx\n", "one line", "", "p\n\nq\nr\n"];
    for t in texts.iter() {
        let once = unwrap(t);
        assert_eq!(unwrap(&once), once);
    }
    assert_eq!(unwrap("\nx\n"), " x ");
}

#[test]
fn reflow_only_when_asked() {
    let mut ctx = context("2020");
    ctx.unwrap_text = false;
    let t = Template::new("a\nb [year]", ctx);
    assert_eq!(t.render().unwrap(), "a\nb 2020");
}

#[test]
fn author_list_forms() {
    assert_eq!(Authors::from(vec![]).to_string(), "");
    assert_eq!(Authors::from(vec![holder("Name", Some("e@x.org"))]).to_string(), "Name <e@x.org>");
    assert_eq!(holder("Solo", None).to_string(), "Solo");
    let many = Authors::from(vec![holder("A", None), holder("B", Some("b@x")), holder("C", None)]);
    assert_eq!(many.to_string(), "A, B <b@x>, C");
}

#[test]
fn spdx_apache_tokens() {
    let t = Template::new("Copyright [yyyy] [name of copyright owner] <year>", context("2021")).set_spdx_template(true);
    assert_eq!(t.replacement_tokens(), ("[yyyy]", "[name of copyright owner]", "[ident]"));
    assert_eq!(t.render().unwrap(), "Copyright 2021 Jane Doe <jane@example.com> <year>");
}

#[test]
fn spdx_copyright_holders_preferred() {
    let t = Template::new("(c) <year> <copyright holders> <owner> <ident>", context("2021")).set_spdx_template(true);
    assert_eq!(t.replacement_tokens(), ("<year>", "<copyright holders>", "<ident>"));
    assert_eq!(t.render().unwrap(), "(c) 2021 Jane Doe <jane@example.com> <owner> MIT");
    let o = Template::new("(c) <year> <owner>", context("2021")).set_spdx_template(true);
    assert_eq!(o.replacement_tokens(), ("<year>", "<owner>", "<ident>"));
    let n = Template::new("(c) <year>", context("2021")).set_spdx_template(true);
    assert_eq!(n.replacement_tokens(), ("<year>", "<name of author>", "<ident>"));
    let plain = Template::new("[year] <year>", context("2021"));
    assert_eq!(plain.replacement_tokens(), ("[year]", "[name of author]", "[ident]"));
    assert_eq!(plain.render().unwrap(), "2021 <year>");
}

#[test]
fn every_occurrence_replaced() {
    let t = Template::new("[ident] [year]-[year] [ident]", context("1999"));
    assert_eq!(t.render().unwrap(), "MIT 1999-1999 MIT");
    let r = replace_all(&"aaa".chars().collect(), &"aa".chars().collect(), &"b".chars().collect());
    assert_eq!(r, vec!['b', 'a']);
}

#[test]
fn no_tokens_is_unchanged() {
    let t = Template::new("nothing to see", context("1999"));
    assert_eq!(t.render().unwrap(), "nothing to see");
}

#[test]
fn current_year_is_four_digits() {
    let mut ctx = context("x");
    ctx.year = None;
    let out = Template::new("[year]", ctx).render().unwrap();
    assert_eq!(out.len(), 4);
    assert!(out.chars().all(|c| c.is_ascii_digit()));
}

#[test]
fn year_padding() {
    assert_eq!(format_year(7), "0007");
    assert_eq!(format_year(2024), "2024");
    assert_eq!(format_year(12345), "12345");
    assert_eq!(format_year(-44), "-0044");
}

#[test]
fn line_comment_wraps() {
    let c = LineComment::new("#");
    assert_eq!(c.comment("aaa bbb ccc", Some(9)), "# aaa bbb\n# ccc\n");
    assert_eq!(c.comment("a\n\nb", None), "# a\n#\n# b\n");
    assert_eq!(c.comment("longword x", Some(4)), "# longword\n# x\n");
    let t = LineComment::new("//").set_trailing_lines(1);
    assert_eq!(t.comment("x", None), "// x\n\n");
}

#[test]
fn block_comment_layout() {
    let b = BlockComment::new("/*", "*/").with_per_line(" *").set_trailing_lines(1);
    assert_eq!(b.comment("one\ntwo", None), "/*\n * one\n * two\n*/\n\n");
    let bare = BlockComment::new("<!--", "-->");
    assert_eq!(bare.comment("x y", Some(3)), "<!--\nx\ny\n-->\n");
}

#[test]
fn trimming_whitespace() {
    assert_eq!(trim_end("a b \n\n\t"), "a b");
    assert_eq!(trim_end("   "), "");
}

#[test]
fn pattern_source_escapes() {
    assert_eq!(year_varying_source("(c) @YR@ a.b", "@YR@"), "\\(c\\) [0-9]{4} a\\.b");
    assert_eq!(year_varying_source("@YR@", "@YR@"), "[0-9]{4}");
}

#[test]
fn round_trip_render_and_match() {
    let body = "Copyright (C) [year] [name of author] This program is free software and [year] is its year.";
    let old = Template::new(body, context("2020"));
    let new = Template::new(body, context("2022"));
    for cols in [None, Some(20), Some(80)] {
        let c = LineComment::new("#");
        let rendered = c.comment(&old.render().unwrap(), cols);
        assert!(new.outdated_license_pattern(&c, cols).unwrap().is_match(&rendered));
        let b = BlockComment::new("/*", "*/").with_per_line(" *");
        let rendered = b.comment(&old.render().unwrap(), cols);
        assert!(new.outdated_license_pattern(&b, cols).unwrap().is_match(&rendered));
    }
    let c = LineComment::new("#");
    let other = c.comment("Copyright (C) 20x0 Jane Doe", None);
    assert!(!new.outdated_license_pattern(&c, None).unwrap().is_match(&other));
}

#[test]
fn decisions() {
    let header = "# (c) 2024\n";
    let missing = decide("#!/bin/sh\necho hi\n", header, None);
    assert_eq!(missing.state, HeaderState::Missing);
    assert_eq!(missing.content, "#!/bin/sh\n# (c) 2024\necho hi\n");
    let plain = decide("x = 1\n", header, None);
    assert_eq!(plain.content, "# (c) 2024\nx = 1\n");
    let current = decide("# (c) 2024\nx\n", header, Some((0, 11)));
    assert_eq!(current.state, HeaderState::Current);
    assert_eq!(current.content, "# (c) 2024\nx\n");
    let outdated = decide("# (c) 2023\nx\n", header, Some((0, 11)));
    assert_eq!(outdated.state, HeaderState::Outdated);
    assert_eq!(outdated.content, "# (c) 2024\nx\n");
}

#[test]
fn decisions_from_template() {
    let t = Template::new("(c) [year] [name of author]", context("2024"));
    let c = LineComment::new("#");
    let fresh = license_content(&t, &c, Some(80), "#!/usr/bin/env python\nprint(1)\n").unwrap();
    assert_eq!(fresh.state, HeaderState::Missing);
    assert_eq!(fresh.content, "#!/usr/bin/env python\n# (c) 2024 Jane Doe <jane@example.com>\nprint(1)\n");
    let old = license_content(&t, &c, Some(80), "# (c) 2023 Jane Doe <jane@example.com>\nprint(1)\n").unwrap();
    assert_eq!(old.state, HeaderState::Outdated);
    assert_eq!(old.content, "# (c) 2024 Jane Doe <jane@example.com>\nprint(1)\n");
    let same = license_content(&t, &c, Some(80), &old.content).unwrap();
    assert_eq!(same.state, HeaderState::Current);
    assert_eq!(same.content, old.content);
    let paths = vec!["a".to_string(), "b".to_string(), "c".to_string()];
    let states = vec![fresh.state, same.state, old.state];
    assert_eq!(not_licensed(&paths, &states), vec!["a".to_string(), "c".to_string()]);
}

#[test]
fn find_returns_leftmost_match() {
    let t = Template::new("(c) [year]", context("2024"));
    let c = LineComment::new("#");
    let p = t.outdated_license_pattern(&c, None).unwrap();
    assert_eq!(p.find("x\n# (c) 2001\n# (c) 2002\n"), Some((2, 13)));
    assert_eq!(p.find("# (c) 20x1\n"), None);
}

#[test]
fn pattern_ignores_context_year() {
    let c = LineComment::new("#");
    let a = Template::new("(c) [year] [name of author]", context("1990"));
    let mut ctx = context("x");
    ctx.year = None;
    let b = Template::new("(c) [year] [name of author]", ctx);
    let pa = a.outdated_license_pattern(&c, Some(40)).unwrap();
    let pb = b.outdated_license_pattern(&c, Some(40)).unwrap();
    assert_eq!(pa.as_str(), pb.as_str());
}
