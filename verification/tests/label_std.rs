use bdk_labels::label::Label;
use bdk_labels::tag::Tag;

/// What `str`'s own functions make of a label string.
fn expected(s: &str) -> (Option<String>, Vec<Vec<String>>) {
    let (desc, rest) = match s.split_once(" ; ") {
        None => (s, None),
        Some((d, r)) => (d, Some(r)),
    };
    let desc = desc.trim();
    let description = if desc.is_empty() { None } else { Some(desc.to_owned()) };
    let tags = rest
        .map(|r| {
            r.split_whitespace()
                .map(|t| t.split(':').filter(|x| !x.is_empty()).map(str::to_owned).collect::<Vec<_>>())
                .filter(|segs| !segs.is_empty())
                .collect()
        })
        .unwrap_or_default();
    (description, tags)
}

fn seen(label: &Label) -> (Option<String>, Vec<Vec<String>>) {
    (
        label.description.clone(),
        label.tags.iter().map(|t: &Tag| t.segments().to_vec()).collect(),
    )
}

#[test]
fn parse_agrees_with_str_functions() {
    let cases = [
        "",
        " ; ",
        ";",
        " ;",
        "a ; ",
        "a;b ; c",
        "\u{a0}x\u{2003} ; a:\u{3000}b:\u{85}c:d:\u{200b}",
        "a ; ; b",
        "a\t; b ; c",
        "x ;  ; y:z",
        "  spaced   description   ; t1:  t2:x:y   ",
        "only:colons ; ::: : a::b",
        "é ; ü:ö \u{2028} ß",
    ];
    for s in cases {
        assert_eq!(seen(&Label::parse(s)), expected(s), "input {s:?}");
    }
}

#[test]
fn written_strings_agree_with_format() {
    let label = Label::parse("  desc  ; b:c a:");
    let desc = "desc";
    let tokens = ["b:c", "a:"].join(" ");
    assert_eq!(label.to_bip329_string(), Some(format!("{desc} ; {tokens}")));
}
