use new_string_template::error::TemplateErrorKind;
use new_string_template::template::Template;
use regex::Regex;
use std::collections::HashMap;

fn no_data() -> HashMap<&'static str, &'static str> {
    HashMap::new()
}

#[test]
fn test_same_source_gives_same_template() {
    let templ_str = "Something {data1} be {data2}, and { not here }";

    assert_eq!(Template::new(templ_str), Template::new(templ_str));
    assert_ne!(Template::new(templ_str), Template::new("Something {data1}"));
}

#[test]
fn test_same_pattern_gives_same_template() {
    let custom_regex = Regex::new(r"(?mi)#(\S+)").unwrap();
    let first = Template::new("a #b c #d").with_regex(&custom_regex);
    let second = Template::new("a #b c #d").with_regex(&custom_regex);

    assert_eq!(first, second);
    assert_ne!(first, Template::new("a #b c #d"));
}

#[test]
fn test_complete_data_never_fails() {
    let templ = Template::new("{a} and {b} and {a}");
    let data = {
        let mut map = HashMap::new();
        map.insert("a", "1");
        map.insert("b", "2");
        map.insert("unused", "3");
        map
    };

    assert_eq!("1 and 2 and 1", templ.render(&data).expect("every name has a value"));
    assert_eq!("1 and 2 and 1", templ.render_nofail(&data));
}

#[test]
fn test_failure_reports_first_missing_name() {
    let templ = Template::new("{first} {second} {third}");
    let data = {
        let mut map = HashMap::new();
        map.insert("first", "1");
        map
    };

    let error = templ.render(&data).expect_err("two names have no value");
    assert_eq!(TemplateErrorKind::MissingData, error.kind());
    assert_eq!("MissingData: Missing Data for Argument \"second\"", error.to_string());
}

#[test]
fn test_missing_data_error_names_data2() {
    let templ = Template::new("Something {data1} be {data2}, and { not here }");
    let data = {
        let mut map = HashMap::new();
        map.insert("data1", "should");
        map
    };

    let error = templ.render(&data).expect_err("data2 has no value");
    assert_eq!(TemplateErrorKind::MissingData, error.kind());
    assert_eq!("MissingData: Missing Data for Argument \"data2\"", error.to_string());
}

#[test]
fn test_missing_data_error_with_string_keys() {
    let templ = Template::new("Something {data1} be {data2}, and { not here }");
    let data = {
        let mut map = HashMap::new();
        map.insert("data1".to_string(), "should".to_string());
        map
    };

    let error = templ.render_string(&data).expect_err("data2 has no value");
    assert_eq!(TemplateErrorKind::MissingData, error.kind());
    assert_eq!("MissingData: Missing Data for Argument \"data2\"", error.to_string());
}

#[test]
fn test_failure_leaves_template_usable() {
    let templ = Template::new("{a}-{b}");
    let partial = {
        let mut map = HashMap::new();
        map.insert("a", "1");
        map
    };
    let complete = {
        let mut map = HashMap::new();
        map.insert("a", "1");
        map.insert("b", "2");
        map
    };

    assert!(templ.render(&partial).is_err());
    assert_eq!("1-2", templ.render(&complete).expect("every name has a value"));
    assert_eq!("1-{b}", templ.render_nofail(&partial));
}

#[test]
fn test_missing_placeholder_is_kept_as_written() {
    let templ = Template::new("before {  spaced\t} between {tight} after");

    assert_eq!("before {  spaced\t} between {tight} after", templ.render_nofail(&no_data()));

    let data = {
        let mut map = HashMap::new();
        map.insert("tight", "X");
        map
    };
    assert_eq!("before {  spaced\t} between X after", templ.render_nofail(&data));
}

#[test]
fn test_missing_placeholder_with_wide_characters() {
    let templ_str = "Größe {größe} — 名前 {名前}!";
    let templ = Template::new(templ_str);

    assert_eq!(templ_str, templ.render_nofail(&no_data()));

    let data = {
        let mut map = HashMap::new();
        map.insert("名前", "世界");
        map
    };
    assert_eq!("Größe {größe} — 名前 世界!", templ.render_nofail(&data));
    let error = templ.render(&data).expect_err("one name has no value");
    assert_eq!("MissingData: Missing Data for Argument \"größe\"", error.to_string());
}

#[test]
fn test_source_without_placeholders_renders_to_itself() {
    let templ_str = "nothing to see here, not even { two words } or {}";
    let templ = Template::new(templ_str);
    let data = {
        let mut map = HashMap::new();
        map.insert("two", "unused");
        map.insert("words", "unused");
        map
    };

    assert_eq!(templ_str, templ.render(&data).expect("nothing to look up"));
    assert_eq!(templ_str, templ.render_nofail(&data));
    assert_eq!(templ_str, templ.render(&no_data()).expect("nothing to look up"));
    assert_eq!(templ_str, templ.render_nofail(&no_data()));
}

#[test]
fn test_empty_source() {
    let templ = Template::new("");

    assert_eq!("", templ.render(&no_data()).expect("nothing to look up"));
    assert_eq!("", templ.render_nofail(&no_data()));
}

#[test]
fn test_adjacent_placeholders() {
    let templ = Template::new("{a}{b}");
    let data = {
        let mut map = HashMap::new();
        map.insert("a", "X");
        map.insert("b", "Y");
        map
    };

    assert_eq!("XY", templ.render(&data).expect("every name has a value"));
}

#[test]
fn test_placeholder_at_both_ends() {
    let templ = Template::new("{a} middle {b}");
    let data = {
        let mut map = HashMap::new();
        map.insert("a", "start");
        map.insert("b", "end");
        map
    };

    assert_eq!("start middle end", templ.render(&data).expect("every name has a value"));
}

#[test]
fn test_value_may_be_empty_or_hold_braces() {
    let templ = Template::new("[{a}][{b}]");
    let data = {
        let mut map = HashMap::new();
        map.insert("a", "");
        map.insert("b", "{a}");
        map
    };

    assert_eq!("[][{a}]", templ.render(&data).expect("every name has a value"));
}

#[test]
fn test_inner_whitespace_is_not_part_of_the_name() {
    let templ = Template::new("{ name }");
    let data = {
        let mut map = HashMap::new();
        map.insert("name", "value");
        map
    };

    assert_eq!("value", templ.render(&data).expect("every name has a value"));
}

#[test]
fn test_custom_pattern_swap() {
    let custom_regex = Regex::new(r"(?mi)\{\{\s+([^\}]+)\s+\}\}").unwrap();
    let templ = Template::new("Something {{ data1 }} be {{ data2 }}").with_regex(&custom_regex);
    let data = {
        let mut map = HashMap::new();
        map.insert("data1", "should");
        map.insert("data2", "here");
        map
    };

    assert_eq!("Something should be here", templ.render_nofail(&data));
}

#[test]
fn test_with_regex_replaces_the_placeholders() {
    let custom_regex = Regex::new(r"<(\w+)>").unwrap();
    let templ = Template::new("{a} <a>").with_regex(&custom_regex);
    let data = {
        let mut map = HashMap::new();
        map.insert("a", "1");
        map
    };

    assert_eq!("{a} 1", templ.render(&data).expect("every name has a value"));
}

#[test]
fn test_try_with_regex_accepts_a_pattern_with_a_name() {
    let custom_regex = Regex::new(r"<(\w+)>").unwrap();
    let templ = Template::new("{a} <a>").try_with_regex(&custom_regex).expect("every match has a name");

    assert_eq!(Template::new("{a} <a>").with_regex(&custom_regex), templ);
}

#[test]
fn test_try_with_regex_refuses_a_pattern_without_group() {
    let no_group = Regex::new(r"<\w+>").unwrap();
    let before = Template::new("{a} <a>");
    let after = Template::new("{a} <a>").try_with_regex(&no_group).expect_err("no match has a name");

    assert_eq!(before, after);
}

#[test]
fn test_try_with_regex_refuses_a_group_that_stays_out() {
    let optional_group = Regex::new(r"<(\w+)>|\[\w+\]").unwrap();
    let before = Template::new("<a> [b]");
    let after =
        Template::new("<a> [b]").try_with_regex(&optional_group).expect_err("a match has no name");

    assert_eq!(before, after);
}

#[test]
fn test_try_with_regex_accepts_any_pattern_without_matches() {
    let no_group = Regex::new(r"<\w+>").unwrap();
    let templ = Template::new("{a}").try_with_regex(&no_group).expect("there is no match");

    assert_eq!("{a}", templ.render(&no_data()).expect("nothing to look up"));
}

#[test]
fn test_clone_renders_alike() {
    let templ = Template::new("{a} and {b}");
    let copy = templ.clone();
    let data = {
        let mut map = HashMap::new();
        map.insert("a", "1");
        map
    };

    assert_eq!(templ, copy);
    assert_eq!(templ.render_nofail(&data), copy.render_nofail(&data));
}

#[test]
fn test_source_may_be_owned() {
    let templ = Template::new(String::from("{a}!"));
    let data = {
        let mut map = HashMap::new();
        map.insert("a".to_string(), "owned".to_string());
        map
    };

    assert_eq!("owned!", templ.render_string(&data).expect("every name has a value"));
    assert_eq!("owned!", templ.render_nofail_string(&data));
}
