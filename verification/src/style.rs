//! The style sheet of the switcher's window, kept in a file in the user's
//! home directory.

use vstd::prelude::*;
use vstd::string::*;

verus! {

/// The style that a new style file is given.
pub const DEFAULT_CSS: &'static str = "
/* reffer to https://thomashunter.name/i3-configurator/ */

.focused_tab {
    background-color: #4C7899;
}

.tab {
    color: #FFFFFF;

    min-height: 20em;
    min-width: 35em;

    padding: 0.5em;
}

.window {
    background-color: #333333;
    border-style: solid;
    border-width: 2px;
    border-color: #4C7899;
}

.picture {

}

.tabs {
    background-color: #333333;
    margin: 1em;
}

.label {
    
}

";

/// The path of the style file in the home directory `home`.
pub open spec fn css_file_path_text(home: Seq<char>) -> Seq<char> {
    home + "/.i3-switcher-style.css"@
}

/// The path of the style file in the home directory `home_dir`.
pub fn css_file_path(home_dir: &str) -> (path: String)
    ensures
        path@ == css_file_path_text(home_dir@),
{
    let mut path = String::from_str(home_dir);
    path.append("/.i3-switcher-style.css");
    path
}

/// What is written into the style file before it is read: the default style
/// where there is no file yet, nothing where there is one.
pub open spec fn spec_css_to_create(file_exists: bool) -> Option<Seq<char>> {
    if file_exists { None } else { Some(DEFAULT_CSS@) }
}

/// The style file after it was made ready to be read: a file that was there
/// is kept, a missing one is created holding what `spec_css_to_create` gives.
pub open spec fn style_file_after_setup(file: Option<Seq<char>>) -> Option<Seq<char>> {
    match file {
        Some(contents) => Some(contents),
        None => spec_css_to_create(false),
    }
}

/// The style that is loaded: what the style file holds once made ready.
pub open spec fn loaded_css(file: Option<Seq<char>>) -> Seq<char> {
    style_file_after_setup(file).unwrap()
}

/// Loading the style twice, with nothing else touching the file in between,
/// loads the same style both times, and the second time writes nothing: the
/// first time leaves a file there. Where there was no file, the style loaded
/// is the default one.
pub proof fn lemma_loading_style_twice(file: Option<Seq<char>>)
    ensures
        style_file_after_setup(file) is Some,
        spec_css_to_create(style_file_after_setup(file) is Some) is None,
        style_file_after_setup(style_file_after_setup(file)) == style_file_after_setup(file),
        loaded_css(style_file_after_setup(file)) == loaded_css(file),
        file is None ==> loaded_css(file) == DEFAULT_CSS@,
{
}

/// What to write into the style file before it is read: the default style
/// where there is no file yet, nothing where there is one.
pub fn css_to_create(file_exists: bool) -> (contents: Option<String>)
    ensures
        match contents {
            Some(c) => spec_css_to_create(file_exists) == Some(c@),
            None => spec_css_to_create(file_exists) is None,
        },
        file_exists ==> contents is None,
        !file_exists ==> (contents matches Some(c) && c@ == DEFAULT_CSS@),
{
    if file_exists {
        None
    } else {
        Some(String::from_str(DEFAULT_CSS))
    }
}

} // verus!
