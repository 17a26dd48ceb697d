use new_string_template::error::TemplateErrorKind;
use new_string_template::matcher::default_template;
use new_string_template::template::Template;
use regex::Regex;
use std::collections::HashMap;

#[test]
fn test_regex_end_plus1() {
    // the end of a match is the offset of the character after it
    let string0 = "something { hello } end";

    let default_regex = default_template().expect("expected the pattern to compile");
    let cap = default_regex.captures(string0).expect("expected some captures");
    let f_m = cap.get(0).expect("expected 0");
    let v_m = cap.get(1).expect("expected 1");

    assert_eq!((f_m.start(), f_m.end()), (10, 19));
    assert_eq!((v_m.start(), v_m.end()), (12, 17));
}

#[test]
fn test_render_full_no_error() {
    let templ_str = "Something {data1} be {data2}, and { not here }";
    let templ = Template::new(templ_str);
    let data = {
        let mut map = HashMap::new();
        map.insert("data1", "should");
        map.insert("data2", "here");
        map
    };

    let rendered = templ.render(&data).expect("Expected Result to be Ok");
    assert_eq!("Something should be here, and { not here }", rendered);
}

#[test]
fn test_default_not_greedy() {
    let templ_str = "Something {data1}{data2}, and { not here }";
    let templ = Template::new(templ_str);
    let data = {
        let mut map = HashMap::new();
        map.insert("data1", "20");
        map.insert("data2", "mb");
        map
    };

    let rendered = templ.render(&data).expect("Expected Result to be Ok");
    assert_eq!("Something 20mb, and { not here }", rendered);
}

#[test]
fn test_render_full_no_error_string_value() {
    let templ_str = "Something {data1} be {data2}, and { not here }";
    let templ = Template::new(templ_str);
    let data = {
        let mut map = HashMap::new();
        map.insert("data1", "should".to_string());
        map.insert("data2", "here".to_string());
        map
    };

    let rendered = templ.render(&data).expect("Expected Result to be Ok");
    assert_eq!("Something should be here, and { not here }", rendered);
}

#[test]
fn test_render_should_error_on_missing_data() {
    let templ_str = "Something {data1} be {data2}, and { not here }";
    let templ = Template::new(templ_str);
    let data = {
        let mut map = HashMap::new();
        map.insert("data1", "should");
        // "data2" is the missing data
        map
    };

    let rendered = templ.render(&data).expect_err("Expected Result to be Ok");
    assert_eq!(TemplateErrorKind::MissingData, rendered.kind());
}

#[test]
fn test_render_nofail_full_no_error() {
    let templ_str = "Something {data1} be {data2}, and { not here }";
    let templ = Template::new(templ_str);
    let data = {
        let mut map = HashMap::new();
        map.insert("data1", "should");
        map
    };

    let rendered = templ.render_nofail(&data);
    assert_eq!("Something should be {data2}, and { not here }", rendered);
}

#[test]
fn test_render_nofail_string_full_no_error() {
    let templ_str = "Something {data1} be {data2}, and { not here }";
    let templ = Template::new(templ_str);
    let data = {
        let mut map = HashMap::new();
        map.insert("data1".to_string(), "should");
        map
    };

    let rendered = templ.render_nofail_string(&data);
    assert_eq!("Something should be {data2}, and { not here }", rendered);
}

#[test]
fn test_render_custom_regex_double_brackets() {
    let custom_regex = Regex::new(r"(?mi)\{\{\s+([^\}]+)\s+\}\}").unwrap();
    let templ_str = "Something {{ data1 }} be {{ data2 }}, and {{ data 3 }}";
    let templ = Template::new(templ_str).with_regex(&custom_regex);
    let data = {
        let mut map = HashMap::new();
        map.insert("data1", "should");
        map.insert("data2", "here");
        map.insert("data 3", "here too");
        map
    };

    let rendered = templ.render_nofail(&data);
    assert_eq!("Something should be here, and here too", rendered);
}

#[test]
fn test_render_custom_regex_single() {
    let custom_regex = Regex::new(r"(?mi)#(\S+)").unwrap();
    let templ_str = "Signle character #data1 here";
    let templ = Template::new(templ_str).with_regex(&custom_regex);
    let data = {
        let mut map = HashMap::new();
        map.insert("data1", "can be seen");
        map
    };

    let rendered = templ.render_nofail(&data);
    assert_eq!("Signle character can be seen here", rendered);
}

#[test]
fn test_render_full_no_error_string_key() {
    let templ_str = "Something {data1} be {data2}, and { not here }";
    let templ = Template::new(templ_str);
    let data = {
        let mut map = HashMap::new();
        map.insert("data1".to_string(), "should");
        map.insert("data2".to_string(), "here");
        map
    };

    let rendered = templ.render_string(&data).expect("Expected Result to be Ok");
    assert_eq!("Something should be here, and { not here }", rendered);
}

#[test]
fn test_render_full_no_error_string_key_string_value() {
    let templ_str = "Something {data1} be {data2}, and { not here }";
    let templ = Template::new(templ_str);
    let data = {
        let mut map = HashMap::new();
        map.insert("data1".to_string(), "should".to_string());
        map.insert("data2".to_string(), "here".to_string());
        map
    };

    let rendered = templ.render_string(&data).expect("Expected Result to be Ok");
    assert_eq!("Something should be here, and { not here }", rendered);
}
