//! The settings of the program: its name, its version and the texts that
//! it shows about itself.

use vstd::prelude::*;

verus! {

/// The banner of the program.
pub const TITLE: &'static str = r#"
 ██████╗██╗  ██╗██╗██████╗  █████╗
██╔════╝██║  ██║██║██╔══██╗██╔══██╗
██║     ███████║██║██████╔╝╚█████╔╝
██║     ██╔══██║██║██╔═══╝ ██╔══██╗
╚██████╗██║  ██║██║██║     ╚█████╔╝
 ╚═════╝╚═╝  ╚═╝╚═╝╚═╝      ╚════╝
        "#;

/// The list of the program's options.
pub const HELP: &'static str = r#"
USAGE
       chip8 [options] <file>


DESCRIPTION

       chip8 - CHIP-8 interpreted programming language emulator

OPTIONS

        -d,    --disasm     run in disassembler mode
        -e,    --emulator   run in emulator mode
        -h,    --help       display options list
        -v,    --version    display version of hexd
        "#;

/// The settings, as texts.
pub struct Settings {
    /// The name of the program.
    pub name: Seq<char>,
    /// The major version number.
    pub major: Seq<char>,
    /// The minor version number.
    pub minor: Seq<char>,
    /// The patch version number.
    pub patch: Seq<char>,
    /// What the program is, in a sentence.
    pub description: Seq<char>,
    /// The license that the program is under.
    pub license: Seq<char>,
    /// The authors of the program.
    pub authors: Seq<char>,
    /// Where the program's source is kept.
    pub repository: Seq<char>,
}

impl Settings {
    /// The version as it is shown: the letter v and the three numbers, with
    /// dots between them.
    pub open spec fn version(self) -> Seq<char> {
        "v"@ + self.major + "."@ + self.minor + "."@ + self.patch
    }
}

/// The settings of the program. They are made once, when the program
/// starts, and do not change.
pub struct Config {
    name: String,
    major: String,
    minor: String,
    patch: String,
    description: String,
    license: String,
    authors: String,
    repository: String,
}

impl View for Config {
    type V = Settings;

    closed spec fn view(&self) -> Settings {
        Settings {
            name: self.name@,
            major: self.major@,
            minor: self.minor@,
            patch: self.patch@,
            description: self.description@,
            license: self.license@,
            authors: self.authors@,
            repository: self.repository@,
        }
    }
}

impl Config {
    /// The settings made of the given texts.
    pub fn new(
        name: &str,
        major: &str,
        minor: &str,
        patch: &str,
        description: &str,
        license: &str,
        authors: &str,
        repository: &str,
    ) -> (config: Self)
        ensures
            config@ == (Settings {
                name: name@,
                major: major@,
                minor: minor@,
                patch: patch@,
                description: description@,
                license: license@,
                authors: authors@,
                repository: repository@,
            }),
    {
        Self {
            name: String::from_str(name),
            major: String::from_str(major),
            minor: String::from_str(minor),
            patch: String::from_str(patch),
            description: String::from_str(description),
            license: String::from_str(license),
            authors: String::from_str(authors),
            repository: String::from_str(repository),
        }
    }

    /// The version of the program, as it is shown.
    pub fn version(&self) -> (text: String)
        ensures
            text@ == self@.version(),
    {
        let mut text = String::from_str("v");
        text.append(self.major.as_str());
        text.append(".");
        text.append(self.minor.as_str());
        text.append(".");
        text.append(self.patch.as_str());
        text
    }

    /// The name of the program.
    pub fn name(&self) -> (text: &str)
        ensures
            text@ == self@.name,
    {
        self.name.as_str()
    }

    /// What the program is, in a sentence.
    pub fn description(&self) -> (text: &str)
        ensures
            text@ == self@.description,
    {
        self.description.as_str()
    }

    /// The license that the program is under.
    pub fn license(&self) -> (text: &str)
        ensures
            text@ == self@.license,
    {
        self.license.as_str()
    }

    /// The authors of the program.
    pub fn authors(&self) -> (text: &str)
        ensures
            text@ == self@.authors,
    {
        self.authors.as_str()
    }

    /// Where the program's source is kept.
    pub fn repository(&self) -> (text: &str)
        ensures
            text@ == self@.repository,
    {
        self.repository.as_str()
    }

    /// The banner of the program.
    pub fn title() -> (text: &'static str)
        ensures
            text@ == TITLE@,
    {
        TITLE
    }

    /// The list of the program's options.
    pub fn help() -> (text: &'static str)
        ensures
            text@ == HELP@,
    {
        HELP
    }
}

} // verus!
