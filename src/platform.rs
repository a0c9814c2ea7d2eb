//! What differs between operating systems: the engine's file name, where it
//! is usually installed, how the search path is queried, and which discovery
//! strategies apply, in which order.

use vstd::prelude::*;
use crate::path::{join, join_spec, opt_str_view, views};

verus! {

/// The operating system the engine is looked for on.
#[derive(Clone, Copy, Debug, PartialEq, Eq, Structural)]
pub enum Platform {
    Windows,
    Linux,
    MacOs,
    Other,
}

/// One way of finding the engine.
#[derive(Clone, Copy, Debug, PartialEq, Eq, Structural)]
pub enum Strategy {
    /// The install directory recorded in the system registry.
    Registry,
    /// A fixed list of standard install locations.
    WellKnown,
    /// The process search path, through `which` or `where`.
    SearchPath,
    /// A copy unpacked from an archive shipped with the application.
    Bundled,
}

/// The engine's executable file name.
pub open spec fn binary_spec(p: Platform) -> Seq<char> {
    if p == Platform::Windows {
        "soffice.exe"@
    } else {
        "soffice"@
    }
}

/// The separator that joins path components.
pub open spec fn separator_spec(p: Platform) -> Seq<char> {
    if p == Platform::Windows {
        "\\"@
    } else {
        "/"@
    }
}

/// The standard install locations of the engine, most preferred first.
pub open spec fn well_known_spec(p: Platform) -> Seq<Seq<char>> {
    match p {
        Platform::Windows => seq![
            "C:\\Program Files\\LibreOffice\\program\\soffice.exe"@,
            "C:\\Program Files (x86)\\LibreOffice\\program\\soffice.exe"@,
        ],
        Platform::Linux => seq![
            "/usr/bin/soffice"@,
            "/usr/local/bin/soffice"@,
            "/opt/libreoffice/program/soffice"@,
            "/usr/lib64/libreoffice/program/soffice"@,
            "/usr/lib/libreoffice/program/soffice"@,
            "/snap/bin/soffice"@,
        ],
        Platform::MacOs => seq!["/Applications/LibreOffice.app/Contents/MacOS/soffice"@],
        Platform::Other => Seq::empty(),
    }
}

/// The discovery strategies that apply, in the order they are tried: a
/// system installation is preferred over the bundled copy.
pub open spec fn strategies_spec(p: Platform) -> Seq<Strategy> {
    if p == Platform::Windows {
        seq![Strategy::Registry, Strategy::WellKnown, Strategy::SearchPath, Strategy::Bundled]
    } else {
        seq![Strategy::WellKnown, Strategy::SearchPath]
    }
}

/// The program that prints where an executable lies on the search path.
pub open spec fn search_program_spec(p: Platform) -> Seq<char> {
    if p == Platform::Windows {
        "cmd"@
    } else {
        "which"@
    }
}

/// The arguments that make `search_program_spec` look up the engine.
pub open spec fn search_args_spec(p: Platform) -> Seq<Seq<char>> {
    if p == Platform::Windows {
        seq!["/C"@, "where"@, binary_spec(p)]
    } else {
        seq![binary_spec(p)]
    }
}

/// The file name of the archive shipped with the application.
pub open spec fn archive_name_spec() -> Seq<char> {
    "libreoffice-win.zip"@
}

/// Where the shipped archive may lie: beside the executable, one or two
/// levels above it, and under the working directory.
pub open spec fn archive_candidates_spec(p: Platform, exe_dir: Option<Seq<char>>) -> Seq<Seq<char>> {
    let sep = separator_spec(p);
    let local = seq![
        join_spec(join_spec("."@, sep, "libreoffice"@), sep, archive_name_spec()),
        join_spec("libreoffice"@, sep, archive_name_spec()),
    ];
    match exe_dir {
        Some(e) => seq![
            join_spec(join_spec(e, sep, "libreoffice"@), sep, archive_name_spec()),
            join_spec(join_spec(e, sep, "../libreoffice"@), sep, archive_name_spec()),
            join_spec(join_spec(e, sep, "../../libreoffice"@), sep, archive_name_spec()),
        ] + local,
        None => local,
    }
}

impl Platform {
    /// The engine's executable file name.
    pub fn binary_name(&self) -> (r: &'static str)
        ensures
            r@ == binary_spec(*self),
    {
        if *self == Platform::Windows {
            "soffice.exe"
        } else {
            "soffice"
        }
    }

    /// The separator that joins path components.
    pub fn separator(&self) -> (r: &'static str)
        ensures
            r@ == separator_spec(*self),
    {
        if *self == Platform::Windows {
            "\\"
        } else {
            "/"
        }
    }

    /// The standard install locations of the engine, most preferred first.
    pub fn well_known_paths(&self) -> (r: Vec<String>)
        ensures
            views(r@) == well_known_spec(*self),
    {
        let r = match self {
            Platform::Windows => vec![
                String::from_str("C:\\Program Files\\LibreOffice\\program\\soffice.exe"),
                String::from_str("C:\\Program Files (x86)\\LibreOffice\\program\\soffice.exe"),
            ],
            Platform::Linux => vec![
                String::from_str("/usr/bin/soffice"),
                String::from_str("/usr/local/bin/soffice"),
                String::from_str("/opt/libreoffice/program/soffice"),
                String::from_str("/usr/lib64/libreoffice/program/soffice"),
                String::from_str("/usr/lib/libreoffice/program/soffice"),
                String::from_str("/snap/bin/soffice"),
            ],
            Platform::MacOs => vec![
                String::from_str("/Applications/LibreOffice.app/Contents/MacOS/soffice"),
            ],
            Platform::Other => Vec::new(),
        };
        assert(views(r@) =~= well_known_spec(*self));
        r
    }

    /// The discovery strategies that apply, in the order they are tried.
    pub fn strategies(&self) -> (r: Vec<Strategy>)
        ensures
            r@ == strategies_spec(*self),
    {
        let r = if *self == Platform::Windows {
            vec![Strategy::Registry, Strategy::WellKnown, Strategy::SearchPath, Strategy::Bundled]
        } else {
            vec![Strategy::WellKnown, Strategy::SearchPath]
        };
        assert(r@ =~= strategies_spec(*self));
        r
    }

    /// The program and arguments that print the engine's location on the
    /// search path: `cmd /C where soffice.exe` on Windows, else
    /// `which soffice`.
    pub fn search_command(&self) -> (r: (String, Vec<String>))
        ensures
            r.0@ == search_program_spec(*self),
            views(r.1@) == search_args_spec(*self),
    {
        let bin = String::from_str(self.binary_name());
        if *self == Platform::Windows {
            let args = vec![String::from_str("/C"), String::from_str("where"), bin];
            assert(views(args@) =~= seq!["/C"@, "where"@, binary_spec(*self)]);
            (String::from_str("cmd"), args)
        } else {
            let args = vec![bin];
            assert(views(args@) =~= seq![binary_spec(*self)]);
            (String::from_str("which"), args)
        }
    }

    /// Where the shipped archive may lie, in the order to try.
    pub fn archive_candidates(&self, exe_dir: Option<&str>) -> (r: Vec<String>)
        ensures
            views(r@) == archive_candidates_spec(
                *self,
                opt_str_view(exe_dir),
            ),
    {
        let sep = self.separator();
        let name = "libreoffice-win.zip";
        let dot = join(".", sep, "libreoffice");
        let mut r: Vec<String> = Vec::new();
        match exe_dir {
            Some(e) => {
                let a = join(e, sep, "libreoffice");
                let b = join(e, sep, "../libreoffice");
                let c = join(e, sep, "../../libreoffice");
                r.push(join(a.as_str(), sep, name));
                r.push(join(b.as_str(), sep, name));
                r.push(join(c.as_str(), sep, name));
            },
            None => {},
        }
        r.push(join(dot.as_str(), sep, name));
        r.push(join("libreoffice", sep, name));
        assert(views(r@) =~= archive_candidates_spec(
            *self,
            opt_str_view(exe_dir),
        ));
        r
    }

    /// The error text when no strategy finds the engine, with what to do
    /// about it.
    pub fn not_found_message(&self) -> (r: String)
        ensures
            r@ == not_found_spec(*self),
    {
        if *self == Platform::Windows {
            String::from_str(
                "LibreOffice not found. Please either:\n1. Install LibreOffice on your system, or\n2. Ensure libreoffice-win.zip is bundled in the application",
            )
        } else {
            String::from_str(
                "LibreOffice not found. Please install LibreOffice on your system:\n- Ubuntu/Debian: sudo apt install libreoffice-writer\n- Fedora: sudo dnf install libreoffice-writer\n- Arch: sudo pacman -S libreoffice-still",
            )
        }
    }
}

/// The error text when no strategy finds the engine.
pub open spec fn not_found_spec(p: Platform) -> Seq<char> {
    if p == Platform::Windows {
        "LibreOffice not found. Please either:\n1. Install LibreOffice on your system, or\n2. Ensure libreoffice-win.zip is bundled in the application"@
    } else {
        "LibreOffice not found. Please install LibreOffice on your system:\n- Ubuntu/Debian: sudo apt install libreoffice-writer\n- Fedora: sudo dnf install libreoffice-writer\n- Arch: sudo pacman -S libreoffice-still"@
    }
}

} // verus!
