use backend::template::{render_with_header, Arg, ArgEntry, Template, TemplateError};

fn text(key: &str, value: &str) -> ArgEntry {
    ArgEntry::new(key, Arg::Text(value.to_string()))
}

fn flag(key: &str, value: bool) -> ArgEntry {
    ArgEntry::new(key, Arg::Bool(value))
}

#[test]
fn named_slots_are_filled() {
    let t = Template::new("{a}-{b}");
    assert_eq!(t.render(vec![text("a", "x"), text("b", "y")]).unwrap(), "x-y");
}

#[test]
fn conditional_picks_first_alternative_when_set() {
    let t = Template::new("{?ok:yes|no}");
    assert_eq!(t.render(vec![flag("ok", true)]).unwrap(), "yes");
}

#[test]
fn conditional_picks_second_alternative_when_clear() {
    let t = Template::new("{?ok:yes|no}");
    assert_eq!(t.render(vec![flag("ok", false)]).unwrap(), "no");
}

#[test]
fn open_positional_slots_are_removed() {
    let t = Template::new("{}-{}");
    assert_eq!(t.render(vec![]).unwrap(), "-");
    assert_eq!(t.render_positional(vec![]).unwrap(), "-");
}

#[test]
fn repeated_conditional_is_resolved_everywhere() {
    let t = Template::new("{?ok:Y|N} and {?ok:Y|N}");
    assert_eq!(t.render(vec![flag("ok", true)]).unwrap(), "Y and Y");
}

#[test]
fn positional_values_fill_slots_in_order() {
    let t = Template::new("<{}|{}>");
    let r = t.render_positional(vec![Arg::Text("a".to_string()), Arg::Text("b".to_string())]);
    assert_eq!(r.unwrap(), "<a|b>");
}

#[test]
fn named_text_fills_every_slot_with_that_key() {
    let t = Template::new("{n}+{n}={m}");
    assert_eq!(t.render(vec![text("n", "1")]).unwrap(), "1+1={m}");
}

#[test]
fn positional_flag_resolves_first_group() {
    let t = Template::new("a{on|off}b");
    assert_eq!(t.render_positional(vec![Arg::Bool(false)]).unwrap(), "aoffb");
    assert_eq!(t.render_positional(vec![Arg::Bool(true)]).unwrap(), "aonb");
}

#[test]
fn mixed_named_and_positional() {
    let t = Template::new("{title}: {} {?x:on|off}");
    let args = vec![text("title", "T"), ArgEntry::new("", Arg::Text("p".to_string())), flag("x", true)];
    assert_eq!(t.render(args).unwrap(), "T: p on");
}

#[test]
fn nested_template_is_filled_by_later_arguments() {
    let header = Template::new("<h>{main}</h>");
    let body = Template::new("<b>{name}</b>");
    let args = vec![text("main", body.content()), text("name", "ann")];
    assert_eq!(header.render(args).unwrap(), "<h><b>ann</b></h>");
}

#[test]
fn missing_separator_is_an_error() {
    let t = Template::new("{?ok:yes}");
    assert_eq!(t.render(vec![flag("ok", true)]).unwrap_err(), TemplateError::MissingSeparator);
}

#[test]
fn missing_end_is_an_error() {
    let t = Template::new("{?ok:yes|no");
    assert_eq!(t.render(vec![flag("ok", true)]).unwrap_err(), TemplateError::MissingEnd);
}

#[test]
fn positional_flag_without_group_is_an_error() {
    let t = Template::new("plain");
    assert_eq!(t.render_positional(vec![Arg::Bool(true)]).unwrap_err(), TemplateError::MissingConditional);
}

#[test]
fn conditional_for_absent_key_is_left_alone() {
    let t = Template::new("{?other:a|b}");
    assert_eq!(t.render(vec![flag("ok", true)]).unwrap(), "{?other:a|b}");
}

#[test]
fn validation_finds_broken_conditionals() {
    assert_eq!(Template::new("{a} {?x:1|2} {} {?y:3|4}").validate(), Ok(()));
    assert_eq!(Template::new("ok {?x:1").validate(), Err(TemplateError::MissingSeparator));
    assert_eq!(Template::new("{?x:1|2} {?y:1|2").validate(), Err(TemplateError::MissingEnd));
    assert_eq!(Template::new("").validate(), Ok(()));
}

#[test]
fn header_wraps_page() {
    let header = Template::new("{?logged_in:out|in}:{main}");
    assert_eq!(render_with_header(&header, true, "body").unwrap(), "out:body");
    assert_eq!(render_with_header(&header, false, "body").unwrap(), "in:body");
    assert!(matches!(Arg::from(true), Arg::Bool(true)));
    assert!(matches!(Arg::from("x".to_string()), Arg::Text(ref t) if t == "x"));
}

#[test]
fn every_conditional_on_a_key_follows_the_flag() {
    let t = Template::new("x {?k:a1|b1} y {?k:a2|b2}{?k:a3|b3} z");
    assert_eq!(t.render(vec![flag("k", false)]).unwrap(), "x b1 y b2b3 z");
    assert_eq!(t.render(vec![flag("k", true)]).unwrap(), "x a1 y a2a3 z");
}

#[test]
fn flag_with_empty_key_leaves_other_text_alone() {
    let t = Template::new("abc");
    assert_eq!(t.render(vec![flag("", true)]).unwrap(), "abc");
    let t = Template::new("a{?:y|n}b{x|z}");
    assert_eq!(t.render(vec![flag("", false)]).unwrap(), "anb{x|z}");
}

#[test]
fn conditional_text_outside_may_hold_bars_and_closers() {
    let t = Template::new("| {?k:a|b} } {?k:c|d}");
    assert_eq!(t.render(vec![flag("k", true)]).unwrap(), "| a } c");
}
