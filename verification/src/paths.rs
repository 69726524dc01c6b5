//! Where the configuration lives: the save file and the undead templates,
//! built as text from the system's configuration directory.

use vstd::prelude::*;
use vstd::string::*;

verus! {

/// `String::push` appends one character; its documentation says no more,
/// and vstd gives it no specification.
pub assume_specification[ String::push ](s: &mut String, ch: char)
    ensures
        final(s)@ == old(s)@.push(ch),
;

/// A path separator of a platform whose main separator is `separator`: `/`
/// is one everywhere, and the main separator (`\\` on Windows) too.
pub open spec fn is_separator(c: char, separator: char) -> bool {
    c == '/' || c == separator
}

/// A path with a relative component appended as `PathBuf::push` does it: the
/// platform's main separator goes between them unless the path is empty or
/// already ends in a separator.
pub open spec fn pushed_path(base: Seq<char>, component: Seq<char>, separator: char) -> Seq<char> {
    if base.len() == 0 || is_separator(base.last(), separator) {
        base + component
    } else {
        base + seq![separator] + component
    }
}

/// Appends the relative path component `component` to `base`; `separator`
/// is the platform's main separator, `std::path::MAIN_SEPARATOR`.
pub fn push_path(base: &str, component: &str, separator: char) -> (path: String)
    ensures
        path@ == pushed_path(base@, component@, separator),
{
    let mut path = String::from_str(base);
    let n = base.unicode_len();
    if n > 0 {
        let last = base.get_char(n - 1);
        if last != '/' && last != separator {
            path.push(separator);
        }
    }
    path.append(component);
    path
}

/// The application's configuration directory inside the system's one.
pub fn app_config_dir(config_root: &str, separator: char) -> (dir: String)
    ensures
        dir@ == pushed_path(config_root@, "necrorust"@, separator),
{
    push_path(config_root, "necrorust", separator)
}

/// The save file inside the application's configuration directory.
pub fn get_save_file(config_dir: &str, separator: char) -> (file: String)
    ensures
        file@ == pushed_path(config_dir@, "necrorust_save.json"@, separator),
{
    push_path(config_dir, "necrorust_save.json", separator)
}

/// The directory of undead templates: `<config_dir>/Undead`.
pub fn undead_dir(config_dir: &str) -> (dir: String)
    ensures
        dir@ == config_dir@ + "/Undead"@,
{
    let mut dir = String::from_str(config_dir);
    dir.append("/Undead");
    dir
}

/// The template file `file_name` in the undead directory: `<dir>/<file_name>`.
pub fn undead_config_path(dir: &str, file_name: &str) -> (path: String)
    ensures
        path@ == dir@ + "/"@ + file_name@,
{
    let mut path = String::from_str(dir);
    path.append("/");
    path.append(file_name);
    path
}

} // verus!
