use dash_mpd::template::{resolve_url_template, TemplateVar, TemplateVars};

fn vars(pairs: &[(&str, &str)]) -> TemplateVars {
    let mut vars = TemplateVars::new();
    for (name, value) in pairs {
        assert!(vars.insert(name, value.to_string()));
    }
    vars
}

#[test]
fn test_resolve_url_template() {
    assert_eq!(
        resolve_url_template("AA$Time$BB", &vars(&[("Time", "ZZZ")])),
        "AAZZZBB"
    );
    assert_eq!(
        resolve_url_template("AA$Number%06d$BB", &vars(&[("Number", "42")])),
        "AA000042BB"
    );
    let dict = vars(&[
        ("RepresentationID", "640x480"),
        ("Number", "42"),
        ("Time", "ZZZ"),
    ]);
    assert_eq!(
        resolve_url_template("AA/$RepresentationID$/segment-$Number%05d$.mp4", &dict),
        "AA/640x480/segment-00042.mp4"
    );
}

#[test]
fn padding_never_truncates() {
    assert_eq!(
        resolve_url_template("s-$Number%02d$.m4s", &vars(&[("Number", "12345")])),
        "s-12345.m4s"
    );
    assert_eq!(
        resolve_url_template("s-$Number%00d$.m4s", &vars(&[("Number", "7")])),
        "s-7.m4s"
    );
    assert_eq!(
        resolve_url_template("s-$Number%012d$.m4s", &vars(&[("Number", "7")])),
        "s-000000000007.m4s"
    );
}

#[test]
fn unknown_and_unbound_variables_stay() {
    let v = vars(&[("Number", "3")]);
    assert_eq!(resolve_url_template("$Foo$/$Time$/$Number$", &v), "$Foo$/$Time$/3");
    assert_eq!(resolve_url_template("$Time%03d$", &v), "$Time%03d$");
    let mut w = TemplateVars::new();
    assert!(!w.insert("Foo", "x".to_string()));
    assert_eq!(resolve_url_template("$Foo$", &w), "$Foo$");
    w.set(TemplateVar::Bandwidth, "64000".to_string());
    assert_eq!(resolve_url_template("b$Bandwidth$", &w), "b64000");
}

#[test]
fn every_plain_placeholder_but_only_the_first_padded_one() {
    let v = vars(&[("Number", "5")]);
    assert_eq!(resolve_url_template("$Number$-$Number$", &v), "5-5");
    assert_eq!(
        resolve_url_template("$Number%02d$-$Number%02d$", &v),
        "05-$Number%02d$"
    );
}

#[test]
fn resolving_twice_changes_nothing_more() {
    let v = vars(&[("RepresentationID", "v1"), ("Number", "9"), ("Time", "900")]);
    let once = resolve_url_template("$RepresentationID$/t$Time$/n$Number%04d$.mp4", &v);
    assert_eq!(once, "v1/t900/n0009.mp4");
    assert_eq!(resolve_url_template(&once, &v), once);
}

#[test]
fn malformed_padded_placeholders_stay() {
    let v = vars(&[("Number", "5")]);
    assert_eq!(resolve_url_template("$Number%0d$", &v), "$Number%0d$");
    assert_eq!(resolve_url_template("$Number%03x$", &v), "$Number%03x$");
    assert_eq!(resolve_url_template("$Number%3d$", &v), "$Number%3d$");
    assert_eq!(resolve_url_template("$Number%03d", &v), "$Number%03d");
}

#[test]
fn padding_counts_characters() {
    for (value, width) in [("7", 3usize), ("é", 3), ("日本", 2), ("日本", 5), ("", 2), ("abc", 0)] {
        let template = format!("<$RepresentationID%0{width}d$>");
        let expected = format!("<{value:0>width$}>");
        assert_eq!(
            resolve_url_template(&template, &vars(&[("RepresentationID", value)])),
            expected
        );
    }
}

#[test]
fn width_that_cannot_be_counted_leaves_the_template() {
    let v = vars(&[("Number", "5")]);
    let template = "$Number%0340282366920938463463374607431768211456d$";
    assert_eq!(resolve_url_template(template, &v), template);
    assert_eq!(resolve_url_template("$Number%0٣d$", &v), "$Number%0٣d$");
}

#[test]
fn values_are_not_expanded_again() {
    let v = vars(&[("RepresentationID", "$Number$"), ("Time", "$Time$")]);
    assert_eq!(resolve_url_template("$RepresentationID$", &v), "$Number$");
    assert_eq!(resolve_url_template("$Time$$Time$", &v), "$Time$$Time$");
    let w = vars(&[("RepresentationID", "$Number$"), ("Number", "9")]);
    assert_eq!(resolve_url_template("$RepresentationID$", &w), "9");
    let x = vars(&[("Number", "$RepresentationID$"), ("RepresentationID", "r")]);
    assert_eq!(resolve_url_template("$Number$", &x), "$RepresentationID$");
}

#[test]
fn expanding_again_goes_on_where_a_placeholder_was_left() {
    let v = vars(&[("Time", "7"), ("Number", "5")]);
    let once = resolve_url_template("$Time$Number%02d$Time$x$Number%03d$", &v);
    assert_eq!(once, "$Time05Time$x$Number%03d$");
    assert_eq!(resolve_url_template(&once, &v), "$Time05Time$x005");
    let once = resolve_url_template("$Number%02d$$Number%02d$", &v);
    assert_eq!(once, "05$Number%02d$");
    assert_eq!(resolve_url_template(&once, &v), "0505");
}

#[test]
fn templates_of_texts_and_placeholders_expand_piece_by_piece() {
    let v = vars(&[
        ("RepresentationID", "video_1"),
        ("Number", "42"),
        ("Time", "900"),
        ("Bandwidth", "64000"),
    ]);
    for (template, expected) in [
        ("seg-$Number$.m4s", "seg-42.m4s"),
        ("$RepresentationID$/$Number%05d$.m4s", "video_1/00042.m4s"),
        ("$RepresentationID$_$Bandwidth$/t$Time$-$Number$", "video_1_64000/t900-42"),
        ("$Time%02d$/$Number%02d$/$Number$", "900/42/42"),
        ("a/$Bandwidth%08d$", "a/00064000"),
        ("$Number$$Time%05d$$Bandwidth$", "420090064000"),
        ("no placeholder", "no placeholder"),
    ] {
        let once = resolve_url_template(template, &v);
        assert_eq!(once, expected);
        assert!(!once.contains('$'));
        assert_eq!(resolve_url_template(&once, &v), once);
    }
}
