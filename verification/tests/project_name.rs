use cc_panes::project_name::derive_project_name;

#[test]
fn name_is_the_last_component() {
    assert_eq!(derive_project_name("/mnt/work/project"), "project");
    assert_eq!(derive_project_name("C:\\work\\project"), "project");
    assert_eq!(derive_project_name("C:/work\\项目"), "项目");
    assert_eq!(derive_project_name("project"), "project");
}

#[test]
fn trailing_separators_are_ignored() {
    assert_eq!(derive_project_name("/mnt/work/project/"), "project");
    assert_eq!(derive_project_name("/mnt/work/project\\/\\"), "project");
    assert_eq!(derive_project_name("/工作/é/"), "é");
}

#[test]
fn path_without_component_is_unknown() {
    assert_eq!(derive_project_name(""), "unknown");
    assert_eq!(derive_project_name("/"), "unknown");
    assert_eq!(derive_project_name("\\//\\"), "unknown");
}

#[test]
fn name_of_a_name_is_that_name() {
    for path in ["/a/b", "", "x\\y\\", "ü/ß"] {
        let name = derive_project_name(path);
        assert_eq!(derive_project_name(&name), name);
    }
}
