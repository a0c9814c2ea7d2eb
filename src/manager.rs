//! The engine manager: where the engine's private copy lives, the path found
//! by the last search, and how a conversion is run and judged.

use vstd::prelude::*;
use crate::batch::{failure_message, failure_message_spec};
use crate::locator::{plan_spec, DirEntry, Locator, Source};
use crate::path::{join, join_spec, opt_view, parent_dir, parent_dir_of, views};
use crate::platform::{
    binary_spec, not_found_spec, separator_spec, well_known_spec, Platform, Strategy,
};

verus! {

/// The name of the application's private directory.
pub open spec fn app_dir_name() -> Seq<char> {
    "docx2pdf-converter"@
}

/// The application's private directory under the user data directory
/// `base`, or under `.` when there is none.
pub open spec fn app_data_dir_spec(p: Platform, base: Option<Seq<char>>) -> Seq<char> {
    let b = match base {
        Some(b) => b,
        None => "."@,
    };
    join_spec(b, separator_spec(p), app_dir_name())
}

/// Where the bundled engine is unpacked, under the user data directory
/// `base`.
pub open spec fn libreoffice_dir_spec(p: Platform, base: Option<Seq<char>>) -> Seq<char> {
    join_spec(app_data_dir_spec(p, base), separator_spec(p), "libreoffice"@)
}

/// Relies on dirs::data_dir: the user's data directory, when the system
/// defines one. It depends on the environment, so nothing is promised of it.
#[verifier::external_body]
fn user_data_dir() -> (r: Option<String>) {
    dirs::data_dir().map(|d| d.to_string_lossy().into_owned())
}

/// The engine invocation that converts `input` to PDF: the program and its
/// arguments.
pub struct EngineCommand {
    pub program: String,
    pub args: Vec<String>,
}

/// The arguments that convert `input` to PDF into the directory `outdir`,
/// headless.
pub open spec fn conversion_args_spec(outdir: Seq<char>, input: Seq<char>) -> Seq<Seq<char>> {
    seq!["--headless"@, "--convert-to"@, "pdf"@, "--outdir"@, outdir, input]
}

/// Where an archive entry named `name` goes under `dest`, and whether it is
/// a directory (its name ends in `/`).
pub open spec fn entry_target_spec(p: Platform, dest: Seq<char>, name: Seq<char>) -> (Seq<char>, bool) {
    (join_spec(dest, separator_spec(p), name), name.len() > 0 && name.last() == '/')
}

/// Keeps the path of the engine found last, so that later searches check it
/// first.
pub struct LibreOfficeManager {
    lo_path: Option<String>,
}

impl LibreOfficeManager {
    /// The engine path found last, if any.
    pub closed spec fn cached_path(&self) -> Option<Seq<char>> {
        match self.lo_path {
            Some(p) => Some(p@),
            None => None,
        }
    }

    /// A manager that has found nothing yet.
    pub fn new() -> (r: Self)
        ensures
            r.cached_path() is None,
    {
        LibreOfficeManager { lo_path: None }
    }

    /// The engine's executable file name.
    pub fn get_so_binary_name(platform: Platform) -> (r: &'static str)
        ensures
            r@ == binary_spec(platform),
    {
        platform.binary_name()
    }

    /// The application's private directory under the user data directory
    /// `base`.
    pub fn app_data_dir_in(platform: Platform, base: Option<String>) -> (r: String)
        ensures
            r@ == app_data_dir_spec(
                platform,
                opt_view(base),
            ),
    {
        let sep = platform.separator();
        match base {
            Some(b) => join(b.as_str(), sep, "docx2pdf-converter"),
            None => join(".", sep, "docx2pdf-converter"),
        }
    }

    /// Where the bundled engine is unpacked, under the user data directory
    /// `base`.
    pub fn libreoffice_dir_in(platform: Platform, base: Option<String>) -> (r: String)
        ensures
            r@ == libreoffice_dir_spec(
                platform,
                opt_view(base),
            ),
    {
        let app = Self::app_data_dir_in(platform, base);
        join(app.as_str(), platform.separator(), "libreoffice")
    }

    /// The application's private directory on this system.
    pub fn get_app_data_dir(platform: Platform) -> (r: String)
        ensures
            exists|b: Option<Seq<char>>| r@ == app_data_dir_spec(platform, b),
    {
        let base = user_data_dir();
        let ghost b = opt_view(base);
        let r = Self::app_data_dir_in(platform, base);
        assert(r@ == app_data_dir_spec(platform, b));
        r
    }

    /// Where the bundled engine is unpacked on this system.
    pub fn get_libreoffice_dir(platform: Platform) -> (r: String)
        ensures
            exists|b: Option<Seq<char>>| r@ == libreoffice_dir_spec(platform, b),
    {
        let base = user_data_dir();
        let ghost b = opt_view(base);
        let r = Self::libreoffice_dir_in(platform, base);
        assert(r@ == libreoffice_dir_spec(platform, b));
        r
    }

    /// A search through every strategy of the platform, in order, without
    /// the cached path.
    pub fn find_libreoffice(platform: Platform, engine_dir: String, archives: Vec<String>) -> (r:
        Locator)
        ensures
            r.wf(),
            r.platform() == platform,
            r.cached() is None,
            r.plan() == plan_spec(platform, false),
            r.engine_dir() == engine_dir@,
            r.archives() == views(archives@),
            r.starts_stage(),
            r.passed_empty_from(0),
            platform != Platform::Other ==> r.reports().len() == 0,
            !r.finished(),
    {
        Locator::new(platform, None, engine_dir, archives)
    }

    /// A search of the install directories the system registry records.
    pub fn find_windows_registry_libreoffice(platform: Platform) -> (r: Locator)
        ensures
            r.wf(),
            r.platform() == platform,
            r.cached() is None,
            r.plan() == seq![Source::Strategy(Strategy::Registry)],
            r.starts_stage(),
            r.passed_empty_from(0),
            platform != Platform::Other ==> r.reports().len() == 0,
            !r.finished(),
    {
        Locator::single(platform, Strategy::Registry, String::new(), Vec::new())
    }

    /// A search of the well-known install locations.
    pub fn find_common_path_libreoffice(platform: Platform) -> (r: Locator)
        ensures
            r.wf(),
            r.platform() == platform,
            r.cached() is None,
            r.plan() == seq![Source::Strategy(Strategy::WellKnown)],
            r.starts_stage(),
            r.passed_empty_from(0),
            platform != Platform::Other ==> r.reports().len() == 0,
            r.finished() ==> well_known_spec(platform).len() == 0,
    {
        Locator::single(platform, Strategy::WellKnown, String::new(), Vec::new())
    }

    /// A search of the process search path.
    pub fn find_path_libreoffice(platform: Platform) -> (r: Locator)
        ensures
            r.wf(),
            r.platform() == platform,
            r.cached() is None,
            r.plan() == seq![Source::Strategy(Strategy::SearchPath)],
            r.starts_stage(),
            r.passed_empty_from(0),
            platform != Platform::Other ==> r.reports().len() == 0,
            !r.finished(),
    {
        Locator::single(platform, Strategy::SearchPath, String::new(), Vec::new())
    }

    /// A search of the bundled copy under `engine_dir`, unpacking it from
    /// the first of `archives` that exists when it is not there yet.
    pub fn find_bundled_libreoffice(
        platform: Platform,
        engine_dir: String,
        archives: Vec<String>,
    ) -> (r: Locator)
        ensures
            r.wf(),
            r.platform() == platform,
            r.cached() is None,
            r.plan() == seq![Source::Strategy(Strategy::Bundled)],
            r.engine_dir() == engine_dir@,
            r.archives() == views(archives@),
            r.starts_stage(),
            r.passed_empty_from(0),
            platform != Platform::Other ==> r.reports().len() == 0,
            !r.finished(),
    {
        Locator::single(platform, Strategy::Bundled, engine_dir, archives)
    }

    /// The search that yields a usable engine: the path found last is
    /// checked first, then every strategy of the platform in order.
    pub fn ensure_libreoffice(
        &self,
        platform: Platform,
        engine_dir: String,
        archives: Vec<String>,
    ) -> (r: Locator)
        ensures
            r.wf(),
            r.platform() == platform,
            r.cached() == self.cached_path(),
            r.plan() == plan_spec(platform, self.cached_path() is Some),
            r.engine_dir() == engine_dir@,
            r.archives() == views(archives@),
            r.starts_stage(),
            r.passed_empty_from(0),
            platform != Platform::Other ==> r.reports().len() == 0,
            !r.finished(),
            self.cached_path() is Some ==> !r.finished() && r.reports().len() == 0
                && r.checking_candidate() && r.current_candidates() == seq![
                self.cached_path().unwrap(),
            ],
    {
        let cached = match &self.lo_path {
            Some(p) => Some(p.clone()),
            None => None,
        };
        Locator::new(platform, cached, engine_dir, archives)
    }

    /// Takes the outcome of a finished search: the engine's path, which is
    /// kept for the next search, or the error that says how to install it.
    pub fn accept(&mut self, search: &Locator) -> (r: Result<String, String>)
        requires
            search.wf(),
            search.finished(),
        ensures
            match r {
                Ok(p) => search.found() == Some(p@) && final(self).cached_path() == Some(p@),
                Err(m) => search.found() is None && m@ == not_found_spec(search.platform())
                    && final(self).cached_path() is None,
            },
    {
        match search.result() {
            Some(p) => {
                self.lo_path = Some(p.clone());
                Ok(p)
            },
            None => {
                self.lo_path = None;
                Err(search.searched_platform().not_found_message())
            },
        }
    }

    /// Whether a finished search found the engine.
    pub fn is_available(search: &Locator) -> (r: bool)
        requires
            search.finished(),
        ensures
            r == (search.found() is Some),
    {
        search.result().is_some()
    }

    /// The engine invocation that converts `input` into the directory of
    /// `output`, headless. The engine names the PDF after the input, so
    /// `output` is expected there.
    pub fn convert_file(platform: Platform, engine: &str, input: &str, output: &str) -> (r:
        EngineCommand)
        ensures
            r.program@ == engine@,
            views(r.args@) == conversion_args_spec(parent_dir(platform, output@), input@),
    {
        let outdir = parent_dir_of(platform, output);
        let args = vec![
            String::from_str("--headless"),
            String::from_str("--convert-to"),
            String::from_str("pdf"),
            String::from_str("--outdir"),
            outdir,
            String::from_str(input),
        ];
        assert(views(args@) =~= conversion_args_spec(parent_dir(platform, output@), input@));
        EngineCommand { program: String::from_str(engine), args }
    }

    /// The result of a conversion whose engine exited: the output path when
    /// it succeeded, else a message with both captured streams.
    pub fn conversion_outcome(output: &str, success: bool, stdout: &str, stderr: &str) -> (r:
        Result<String, String>)
        ensures
            success ==> r is Ok && r->Ok_0@ == output@,
            !success ==> r is Err && r->Err_0@ == failure_message_spec(stdout@, stderr@),
    {
        if success {
            Ok(String::from_str(output))
        } else {
            Err(failure_message(stdout, stderr))
        }
    }

    /// Where an archive entry named `name` goes when unpacking into `dest`.
    pub fn zip_entry_target(platform: Platform, dest: &str, name: &str) -> (r: DirEntry)
        ensures
            (r.path@, r.is_dir) == entry_target_spec(platform, dest@, name@),
    {
        let n = name.unicode_len();
        let is_dir = n > 0 && name.get_char(n - 1) == '/';
        DirEntry { path: join(dest, platform.separator(), name), is_dir }
    }
}

} // verus!
