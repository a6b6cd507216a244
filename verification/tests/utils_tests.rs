use cluster_manager::utils::{
    align_content, append_line, filter_lines_by_substring, get_ok_or_error, get_random_name,
    print_information, print_message, print_with_offset, quote, read_file, remove_colors,
    remove_line, remove_line_with_substring, replace_in_lines, sha256sum_matches,
    sha256sum_of_output, vec_to_string, write_lines,
};

fn strings(items: &[&str]) -> Vec<String> {
    items.iter().map(|s| s.to_string()).collect()
}

#[test]
fn quote_wraps_and_escapes() {
    assert_eq!(quote("reuse"), "\"reuse\"");
    assert_eq!(quote(""), "\"\"");
    assert_eq!(quote("say \"hi\""), "\"say \\\"hi\\\"\"");
    // a quote that was escaped already is not escaped twice
    assert_eq!(quote("say \\\"hi\\\""), "\"say \\\"hi\\\"\"");
}

#[test]
fn vec_to_string_lists_items() {
    assert_eq!(vec_to_string(&strings(&[]), true), "[]");
    assert_eq!(vec_to_string(&strings(&["a"]), true), "[\"a\"]");
    assert_eq!(vec_to_string(&strings(&["a", "b c"]), true), "[\"a\", \"b c\"]");
    assert_eq!(vec_to_string(&strings(&["a", "b c"]), false), "[a, b c]");
}

#[test]
fn align_content_never_goes_below_zero() {
    assert_eq!(align_content(20, 8), 12);
    assert_eq!(align_content(7, 7), 0);
    assert_eq!(align_content(7, 11), 0);
}

#[test]
fn report_lines_carry_their_marks() {
    assert_eq!(get_ok_or_error(true), "[  OK  ]");
    assert_eq!(get_ok_or_error(false), "[FAILED]");
    assert_eq!(print_message("create deploy sandbox", true), "[  OK  ]: create deploy sandbox");
    assert_eq!(print_message("unpack image", false), "[FAILED]: unpack image");
    assert_eq!(print_information("loopdevice is: loop0"), "[ INFO ]: loopdevice is: loop0");
    assert_eq!(print_with_offset("more"), "[      ]: more");
}

#[test]
fn filter_lines_keeps_matching_lines_in_order() {
    let lines = strings(&["dhcp-host=aa:bb,10.0.0.2,n1", "other", "dhcp-host=set:pxe,aa:bb,10.0.0.3,n2"]);
    assert_eq!(filter_lines_by_substring(&lines, "aa:bb"), strings(&["dhcp-host=aa:bb,10.0.0.2,n1", "dhcp-host=set:pxe,aa:bb,10.0.0.3,n2"]));
    assert_eq!(filter_lines_by_substring(&lines, "zz"), Vec::<String>::new());
}

#[test]
fn remove_colors_strips_the_marks_of_the_builder() {
    assert_eq!(remove_colors("\u{1b}[1;32m==> arm.imagefile: mounting /dev/loop0p1 to /tmp/1/boot\u{1b}[0m"), "==> arm.imagefile: mounting /dev/loop0p1 to /tmp/1/boot");
    assert_eq!(remove_colors("\u{1b}[0;32mplain\u{1b}[0m"), "plain");
    assert_eq!(remove_colors("nothing"), "nothing");
}

#[test]
fn file_lines_are_added_and_removed() {
    let lines = strings(&["a", "b"]);
    let added = append_line(lines.clone(), "c".to_string());
    assert_eq!(added, strings(&["a", "b", "c"]));
    assert_eq!(write_lines(&added), "a\nb\nc");
    assert_eq!(remove_line(&added, "c"), lines);
    assert_eq!(remove_line(&strings(&["x", "y", "x"]), "x"), strings(&["y"]));
    assert_eq!(remove_line_with_substring(&strings(&["ab", "cd", "abc"]), "ab"), strings(&["cd"]));
    assert_eq!(read_file(&strings(&["a", "b"])), "ab");
}

#[test]
fn adding_then_removing_a_line_restores_the_file() {
    let before = strings(&["/nfs/n0 *(rw)", "/nfs/n1 *(rw)"]);
    let after = remove_line(&append_line(before.clone(), "/nfs/n2 *(rw)".to_string()), "/nfs/n2 *(rw)");
    assert_eq!(after, before);
}

#[test]
fn replace_in_lines_rewrites_each_line() {
    assert_eq!(replace_in_lines("root=%NFS_ROOT%\nip=%SERVER_IP%\n", "%NFS_ROOT%", "/nfs/n1"), "root=/nfs/n1\nip=%SERVER_IP%");
    assert_eq!(replace_in_lines("", "a", "b"), "");
}

#[test]
fn checksums_are_compared() {
    assert_eq!(sha256sum_of_output("abc123  /tmp/file\n"), "abc123");
    assert!(sha256sum_matches(Some("abc123"), "abc123"));
    assert!(!sha256sum_matches(Some("abc123"), "abc124"));
    assert!(!sha256sum_matches(None, "abc123"));
}

#[test]
fn random_names_are_made_of_two_words() {
    let name = get_random_name();
    assert!(name.contains('-'));
    assert!(name.len() >= 3);
}
