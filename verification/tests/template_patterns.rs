use dash_mpd::template::{resolve_url_template, TemplateVars};
use regex::Regex;

const NAMES: [&str; 4] = ["RepresentationID", "Number", "Time", "Bandwidth"];

fn by_pattern(template: &str, bound: &[(&str, &str)]) -> String {
    let mut result = template.to_string();
    for name in NAMES {
        let value = match bound.iter().find(|(n, _)| *n == name) {
            Some((_, value)) => *value,
            None => continue,
        };
        result = result.replace(&format!("${name}$"), value);
        let pattern = Regex::new(&format!("\\${name}%0(\\d+)d\\$")).unwrap();
        let found = pattern.captures(&result).map(|caps| {
            let whole = caps.get(0).unwrap();
            (whole.start(), whole.end(), caps[1].to_string())
        });
        if let Some((start, end, digits)) = found {
            if let Ok(width) = digits.parse::<usize>() {
                let padded = format!("{value:0>width$}");
                result = format!("{}{}{}", &result[..start], padded, &result[end..]);
            }
        }
    }
    result
}

fn by_library(template: &str, bound: &[(&str, &str)]) -> String {
    let mut vars = TemplateVars::new();
    for (name, value) in bound {
        assert!(vars.insert(name, value.to_string()));
    }
    resolve_url_template(template, &vars)
}

#[test]
fn placeholders_are_found_where_the_pattern_finds_them() {
    let templates = [
        "",
        "plain",
        "$",
        "$$",
        "$Number$",
        "$Number%05d$",
        "a$Number%05d$b$Number%03d$c",
        "$Number%0d$",
        "$Number%05$",
        "$Number%5d$",
        "$Number%005d$",
        "$Number%00d$",
        "$Number%012d$x$Number$",
        "$Number%05d",
        "Number%05d$",
        "$$Number%05d$$",
        "$Number%0$Number%02d$",
        "$Number%05d$Time%03d$",
        "$Time%03d$Number%05d$",
        "$Time$Number$Time$",
        "$Nu$Number$mber$",
        "$RepresentationID$/$Bandwidth$/$Time$-$Number%09d$.m4s",
        "$RepresentationID%04d$/$Bandwidth%010d$/$Time%02d$",
        "$number$$NUMBER$$Number $",
        "é$Number%03d$日本$Time$語",
        "$Number%03d$$Number%03d$$Number$",
        "$Number%0001d$",
        "$Number%03dd$",
        "$Number%03d$$",
        "%0$Number%0%0$Number%04d$",
        "$Time%0$Number$d$",
        "$Bandwidth$Number%03d$",
    ];
    let bindings: [&[(&str, &str)]; 7] = [
        &[],
        &[("Number", "42")],
        &[("Number", "123456")],
        &[("Number", ""), ("Time", "0")],
        &[("RepresentationID", "v1"), ("Number", "7"), ("Time", "900"), ("Bandwidth", "64000")],
        &[("Number", "3"), ("Time", "Number%03d$")],
        &[("RepresentationID", "$Number$"), ("Number", "$Time%02d$"), ("Time", "é")],
    ];
    for template in templates {
        for bound in bindings {
            assert_eq!(
                by_library(template, bound),
                by_pattern(template, bound),
                "template {template:?} with {bound:?}"
            );
        }
    }
}
