use tlrc::classify::{classify, Role};
use tlrc::highlight::{highlight, Delimiters, Segment};
use tlrc::page::PageRenderer;
use tlrc::paint::RenderStyles;
use tlrc::render::{OutLine, ParseErrorKind, RenderOptions, Tone};
use yansi::{Color, Style};

fn segs(v: &[Segment]) -> Vec<(bool, String)> {
    v.iter().map(|s| (s.highlighted, s.text.clone())).collect()
}

fn seg(h: bool, t: &str) -> (bool, String) {
    (h, t.to_string())
}

fn options(compact: bool) -> RenderOptions {
    RenderOptions {
        show_title: true,
        compact,
        platform_title: false,
        show_hyphens: false,
        example_prefix: "- ".to_string(),
        platform: None,
        indent_title: 2,
        indent_description: 2,
        indent_bullet: 2,
        indent_example: 4,
    }
}

fn plain_styles() -> RenderStyles {
    RenderStyles {
        title: Style::default(),
        description: Style::default(),
        bullet: Style::default(),
        example: Style::default(),
        url: Style::default(),
        inline_code: Style::default(),
        placeholder: Style::default(),
    }
}

fn renderer(o: RenderOptions) -> PageRenderer {
    PageRenderer::new("pages/common/tar.md".to_string(), o, plain_styles())
}

fn line_pieces(l: &OutLine) -> Vec<(Tone, String)> {
    l.pieces.iter().map(|p| (p.tone, p.text.clone())).collect()
}

fn roles(out: &[OutLine]) -> Vec<Role> {
    out.iter().map(|l| l.role).collect()
}

#[test]
fn classify_by_leading_token() {
    assert_eq!(classify("# tar\n"), Role::Title);
    assert_eq!(classify("> Archiving utility."), Role::Description);
    assert_eq!(classify("- Create an archive:"), Role::Bullet);
    assert_eq!(classify("`tar cf {{target.tar}} {{file}}`"), Role::Example);
    assert_eq!(classify(""), Role::Blank);
    assert_eq!(classify(" \t\r\n"), Role::Blank);
    assert_eq!(classify("\u{3000}"), Role::Blank);
    assert_eq!(classify("#tar"), Role::Invalid);
    assert_eq!(classify("-no space"), Role::Invalid);
    assert_eq!(classify("plain text"), Role::Invalid);
    assert_eq!(classify("  x"), Role::Invalid);
}

#[test]
fn symmetric_highlighting() {
    let r = highlight(Delimiters::InlineCode, "aa `bb` cc `dd` ee");
    assert_eq!(
        segs(&r),
        vec![seg(false, "aa "), seg(true, "bb"), seg(false, " cc "), seg(true, "dd"), seg(false, " ee")]
    );
    let text: String = r.iter().map(|s| s.text.as_str()).collect();
    assert_eq!(text, "aa bb cc dd ee");
}

#[test]
fn symmetric_unbalanced_does_not_fail() {
    let r = highlight(Delimiters::InlineCode, "a `b` c `d");
    assert_eq!(segs(&r), vec![seg(false, "a "), seg(true, "b"), seg(false, " c "), seg(true, "d")]);
}

#[test]
fn no_delimiter_is_one_plain_segment() {
    for d in [Delimiters::InlineCode, Delimiters::Url, Delimiters::Placeholder] {
        assert_eq!(segs(&highlight(d, "just text")), vec![seg(false, "just text")]);
    }
    assert_eq!(segs(&highlight(Delimiters::Url, "")), vec![seg(false, "")]);
}

#[test]
fn url_highlighting() {
    let r = highlight(Delimiters::Url, "More info: <https://example.com>.");
    assert_eq!(
        segs(&r),
        vec![seg(false, "More info: "), seg(true, "https://example.com"), seg(false, ".")]
    );
}

#[test]
fn url_without_closing_bracket_stays_plain() {
    let r = highlight(Delimiters::Url, "see <https://example.com");
    assert_eq!(segs(&r), vec![seg(false, "see "), seg(false, "s://example.com")]);
}

#[test]
fn url_closes_at_first_bracket() {
    let r = highlight(Delimiters::Url, "<http://a>b>c");
    assert_eq!(segs(&r), vec![seg(false, ""), seg(true, "http://a"), seg(false, "b>c")]);
}

#[test]
fn placeholder_rightmost_close() {
    let r = highlight(Delimiters::Placeholder, "{{a}}}");
    assert_eq!(segs(&r), vec![seg(false, ""), seg(true, "a}"), seg(false, "")]);
    let r = highlight(Delimiters::Placeholder, "x {{a}}} y");
    assert_eq!(segs(&r), vec![seg(false, "x "), seg(true, "a}"), seg(false, " y")]);
}

#[test]
fn placeholders_in_sequence() {
    let r = highlight(Delimiters::Placeholder, "aa bb {{cc}} {{dd}} ee");
    assert_eq!(
        segs(&r),
        vec![seg(false, "aa bb "), seg(true, "cc"), seg(false, " "), seg(true, "dd"), seg(false, " ee")]
    );
}

#[test]
fn text_before_first_placeholder_is_plain() {
    let r = highlight(Delimiters::Placeholder, "a}}b {{c}}");
    assert_eq!(segs(&r), vec![seg(false, "a}}b "), seg(true, "c"), seg(false, "")]);
}

#[test]
fn escaped_braces_are_kept() {
    let out = renderer(options(true)).render_lines("`\\{\\{literal\\}\\}`\n").ok().unwrap();
    assert_eq!(out.len(), 1);
    assert_eq!(out[0].role, Role::Example);
    assert_eq!(out[0].indent, 4);
    assert_eq!(line_pieces(&out[0]), vec![(Tone::Base, "\\{\\{literal\\}\\}".to_string())]);
}

#[test]
fn escaped_braces_next_to_placeholder() {
    let out = renderer(options(true)).render_lines("`echo \\{\\{{{x}}\\}\\}`").ok().unwrap();
    assert_eq!(
        line_pieces(&out[0]),
        vec![
            (Tone::Base, "echo \\{\\{".to_string()),
            (Tone::Placeholder, "x".to_string()),
            (Tone::Base, "\\}\\}".to_string()),
        ]
    );
}

#[test]
fn example_without_closing_backtick() {
    let doc = "# tar\n\n> Archiver.\n\n`tar cf {{a}}\n`ok`\n";
    let e = renderer(options(false)).render_lines(doc).err().unwrap();
    assert_eq!(e.line_number, 5);
    assert_eq!(e.kind, ParseErrorKind::MissingClosingBacktick);
    assert_eq!(e.line, "`tar cf {{a}}");
    assert_eq!(e.path, "pages/common/tar.md");
    assert!(e.hint().contains("backtick"));
}

#[test]
fn example_with_trailing_whitespace_is_accepted() {
    let out = renderer(options(true)).render_lines("`ls {{dir}}`  \r\n").ok().unwrap();
    assert_eq!(
        line_pieces(&out[0]),
        vec![(Tone::Base, "ls ".to_string()), (Tone::Placeholder, "dir".to_string()), (Tone::Base, "".to_string())]
    );
}

#[test]
fn unknown_leading_token() {
    let e = renderer(options(true)).render_lines("# tar\nnot a page line\n").err().unwrap();
    assert_eq!(e.line_number, 2);
    assert_eq!(e.kind, ParseErrorKind::UnknownLeadingToken);
    assert_eq!(e.line, "not a page line");
}

const PAGE: &str = "# tar\n\n> Archiving utility.\n\n- Create an archive:\n\n`tar cf {{target.tar}} {{file}}`\n";

#[test]
fn compact_mode_has_no_blank_lines() {
    let out = renderer(options(true)).render_lines(PAGE).ok().unwrap();
    assert_eq!(roles(&out), vec![Role::Title, Role::Description, Role::Bullet, Role::Example]);
}

#[test]
fn spaced_mode_blank_lines() {
    let out = renderer(options(false)).render_lines(PAGE).ok().unwrap();
    assert_eq!(
        roles(&out),
        vec![
            Role::Blank,
            Role::Title,
            Role::Blank,
            Role::Description,
            Role::Blank,
            Role::Bullet,
            Role::Blank,
            Role::Example,
            Role::Blank,
        ]
    );
}

#[test]
fn hidden_title() {
    let mut o = options(false);
    o.show_title = false;
    let out = renderer(o).render_lines("# tar\n> d\n").ok().unwrap();
    assert_eq!(roles(&out), vec![Role::Description, Role::Blank]);
}

#[test]
fn platform_title() {
    let mut o = options(true);
    o.platform_title = true;
    o.platform = Some("linux".to_string());
    let out = renderer(o).render_lines("# tar").ok().unwrap();
    assert_eq!(line_pieces(&out[0]), vec![(Tone::Base, "linux/tar".to_string())]);
    assert_eq!(out[0].indent, 2);
}

#[test]
fn description_links_then_code() {
    let out = renderer(options(true)).render_lines("> Use `tar` <https://x.org>.\n").ok().unwrap();
    assert_eq!(
        line_pieces(&out[0]),
        vec![
            (Tone::Base, "Use ".to_string()),
            (Tone::Code, "tar".to_string()),
            (Tone::Base, " ".to_string()),
            (Tone::Url, "https://x.org".to_string()),
            (Tone::Base, ".".to_string()),
        ]
    );
}

#[test]
fn bullet_with_hyphen_prefix() {
    let mut o = options(true);
    o.show_hyphens = true;
    o.example_prefix = "* ".to_string();
    let out = renderer(o).render_lines("- List `files`:").ok().unwrap();
    assert_eq!(
        line_pieces(&out[0]),
        vec![
            (Tone::Base, "* List ".to_string()),
            (Tone::Code, "files".to_string()),
            (Tone::Base, ":".to_string()),
        ]
    );
    let out = renderer(options(true)).render_lines("- List:").ok().unwrap();
    assert_eq!(line_pieces(&out[0]), vec![(Tone::Base, "List:".to_string())]);
}

#[test]
fn empty_document() {
    let out = renderer(options(false)).render_lines("").ok().unwrap();
    assert_eq!(roles(&out), vec![Role::Blank]);
    let out = renderer(options(true)).render_lines("").ok().unwrap();
    assert!(out.is_empty());
}

#[test]
fn plain_styles_round_trip() {
    let s = renderer(options(true)).render(PAGE).ok().unwrap();
    assert_eq!(s, "  tar\n  Archiving utility.\n  Create an archive:\n    tar cf target.tar file\n");
}

#[test]
fn styled_output_strips_back_to_text() {
    let mut styles = plain_styles();
    styles.placeholder = Style::new(Color::Blue).bold();
    let r = PageRenderer::new("p".to_string(), options(true), styles);
    let s = r.render("`ls {{dir}}`").ok().unwrap();
    assert_eq!(s, "    ls \u{1b}[1;34mdir\u{1b}[0m\n");
    assert_ne!(s, "    ls dir\n");
}
