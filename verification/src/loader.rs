//! The options and results of loading a foreign source file, and the errors
//! that loading reports.

use vstd::prelude::*;

use crate::bindings::{BindingOptions, GeneratedBinding};
use crate::detector::{Language, spec_debug_name};
use crate::exports::{ExportSource, io_error_text, owned_strings};
use crate::imports::GeneratedImport;
use crate::paths::{as_path, buf_as_path, buf_path, display_string, path_display_text, to_path_buf};
use crate::text::{ascii_lowercase, chars_of, push_str, string_from, string_of, string_views, to_ascii_lower};

verus! {

broadcast use vstd::string::group_string_axioms;

/// Options for loading a foreign module.
#[derive(Clone, Debug)]
pub struct LoadOptions {
    /// Generate Rust bindings from the header (default: true)
    pub generate_bindings: bool,
    /// Compile the source (default: true)
    pub compile: bool,
    /// Output directory (default: target/native)
    pub output_dir: Option<std::path::PathBuf>,
    /// Custom binding options
    pub binding_options: Option<BindingOptions>,
    /// Link the compiled library (default: true for object files)
    pub link: bool,
    /// Extra link args
    pub link_args: Vec<String>,
    /// Extra compile args
    pub compile_args: Vec<String>,
    pub exports: Vec<String>,
    pub config_path: Option<std::path::PathBuf>,
    pub consumer_languages: Vec<Language>,
}

impl Default for LoadOptions {
    fn default() -> (r: Self)
        ensures
            r.generate_bindings,
            r.compile,
            r.link,
            r.output_dir is None,
            r.binding_options is None,
            r.link_args@.len() == 0,
            r.compile_args@.len() == 0,
            r.exports@.len() == 0,
            r.config_path is None,
            r.consumer_languages@.len() == 0,
    {
        LoadOptions {
            generate_bindings: true,
            compile: true,
            output_dir: None,
            binding_options: None,
            link: true,
            link_args: Vec::new(),
            compile_args: Vec::new(),
            exports: Vec::new(),
            config_path: None,
            consumer_languages: Vec::new(),
        }
    }
}

impl LoadOptions {
    /// Sets the requested exports.
    pub fn exports<const N: usize>(self, exports: [&str; N]) -> (r: Self)
        ensures
            string_views(r.exports@) == exports@.map_values(|s: &str| s@),
            r.generate_bindings == self.generate_bindings,
            r.compile == self.compile,
            r.link == self.link,
            r.output_dir == self.output_dir,
            r.config_path == self.config_path,
            r.consumer_languages == self.consumer_languages,
            r.binding_options == self.binding_options,
            r.link_args == self.link_args,
            r.compile_args == self.compile_args,
    {
        let mut o = self;
        o.exports = owned_strings(exports);
        o
    }

    /// Sets the output directory.
    pub fn output_dir<P: AsRef<std::path::Path>>(self, output_dir: P) -> (r: Self)
        ensures
            r.output_dir is Some,
            r.generate_bindings == self.generate_bindings,
            r.compile == self.compile,
            r.link == self.link,
            r.exports == self.exports,
            r.config_path == self.config_path,
            r.consumer_languages == self.consumer_languages,
            r.binding_options == self.binding_options,
            r.link_args == self.link_args,
            r.compile_args == self.compile_args,
    {
        let mut o = self;
        o.output_dir = Some(to_path_buf(as_path(&output_dir)));
        o
    }

    /// Sets whether Rust bindings are generated.
    pub fn generate_bindings(self, generate_bindings: bool) -> (r: Self)
        ensures
            r.generate_bindings == generate_bindings,
            r.compile == self.compile,
            r.link == self.link,
            r.output_dir == self.output_dir,
            r.exports == self.exports,
            r.config_path == self.config_path,
            r.consumer_languages == self.consumer_languages,
            r.binding_options == self.binding_options,
            r.link_args == self.link_args,
            r.compile_args == self.compile_args,
    {
        let mut o = self;
        o.generate_bindings = generate_bindings;
        o
    }

    /// Sets the configuration file to read.
    pub fn config_path<P: AsRef<std::path::Path>>(self, path: P) -> (r: Self)
        ensures
            r.config_path is Some,
            r.generate_bindings == self.generate_bindings,
            r.compile == self.compile,
            r.link == self.link,
            r.output_dir == self.output_dir,
            r.exports == self.exports,
            r.consumer_languages == self.consumer_languages,
            r.binding_options == self.binding_options,
            r.link_args == self.link_args,
            r.compile_args == self.compile_args,
    {
        let mut o = self;
        o.config_path = Some(to_path_buf(as_path(&path)));
        o
    }

    /// Sets the languages to generate consumer imports for.
    pub fn consumer_languages<const N: usize>(self, languages: [Language; N]) -> (r: Self)
        ensures
            r.consumer_languages@ == languages@,
            r.generate_bindings == self.generate_bindings,
            r.compile == self.compile,
            r.link == self.link,
            r.output_dir == self.output_dir,
            r.exports == self.exports,
            r.config_path == self.config_path,
            r.binding_options == self.binding_options,
            r.link_args == self.link_args,
            r.compile_args == self.compile_args,
    {
        let mut langs: Vec<Language> = Vec::new();
        for i in 0..N
            invariant
                N == languages@.len(),
                langs@ == languages@.take(i as int),
        {
            langs.push(languages[i]);
            assert(langs@ =~= languages@.take(i + 1));
        }
        assert(languages@.take(N as int) =~= languages@);
        let mut o = self;
        o.consumer_languages = langs;
        o
    }
}

/// The result of loading a foreign module.
#[derive(Clone, Debug)]
pub struct LoadedModule {
    /// Path to the compiled output (C file or object)
    pub output_path: std::path::PathBuf,
    /// Path to the generated header (if any)
    pub header_path: Option<std::path::PathBuf>,
    /// The generated Rust bindings
    pub bindings: Option<GeneratedBinding>,
    /// The language that was loaded
    pub language: Language,
    /// Path to the original source
    pub source_path: std::path::PathBuf,
    pub exports: Vec<String>,
    pub export_source: ExportSource,
    pub warnings: Vec<String>,
    pub imports: Vec<GeneratedImport>,
}

impl LoadedModule {
    /// Whether bindings were generated.
    pub fn has_bindings(&self) -> (r: bool)
        ensures
            r == self.bindings is Some,
    {
        self.bindings.is_some()
    }

    /// The binding code, if bindings were generated.
    pub fn bindings_code(&self) -> (r: Option<&str>)
        ensures
            r is Some <==> self.bindings is Some,
            r matches Some(c) ==> c@ == self.bindings->0.code@,
    {
        match &self.bindings {
            Some(b) => Some(b.code.as_str()),
            None => None,
        }
    }
}

/// The directory (under the output root) that holds a language's outputs:
/// the language's name in lowercase.
pub fn output_subdir(language: Language) -> (r: String)
    ensures
        r@ == to_ascii_lower(spec_debug_name(language)),
{
    let cs = chars_of(language.debug_name());
    let lowered = ascii_lowercase(cs.as_slice());
    string_of(lowered.as_slice())
}

/// Why loading a module failed.
#[derive(Debug)]
pub enum LoadError {
    UnknownLanguage(std::path::PathBuf),
    CompilerNotFound(Language),
    CompilationFailed(Language, String),
    Io { path: std::path::PathBuf, error: std::io::Error },
    BindingFailed(String),
    ExportFailed(String),
    ImportFailed(String),
}

impl LoadError {
    /// The message that describes the error.
    pub fn message(&self) -> (r: String)
        ensures
            self matches LoadError::UnknownLanguage(p) ==> r@ == "Unknown language for file: "@ + path_display_text(buf_path(&p)),
            self matches LoadError::CompilerNotFound(l) ==> r@ == "Compiler for "@ + spec_debug_name(*l)
                + " not found"@,
            self matches LoadError::CompilationFailed(l, m) ==> r@ == "Compilation of "@
                + spec_debug_name(*l) + " failed: "@ + m@,
            self matches LoadError::Io { path, .. } ==> exists|e: Seq<char>|
                r@ == "IO error for "@ + path_display_text(buf_path(&path)) + ": "@ + e,
            self matches LoadError::BindingFailed(m) ==> r@ == "Binding generation failed: "@ + m@,
            self matches LoadError::ExportFailed(m) ==> r@ == "Export discovery failed: "@ + m@,
            self matches LoadError::ImportFailed(m) ==> r@ == "Import generation failed: "@ + m@,
    {
        match self {
            LoadError::UnknownLanguage(path) => {
                let mut m = string_from("Unknown language for file: ");
                let shown = display_string(buf_as_path(path));
                push_str(&mut m, shown.as_str());
                assert(m@ == "Unknown language for file: "@ + shown@);
                m
            },
            LoadError::CompilerNotFound(l) => {
                let mut m = string_from("Compiler for ");
                push_str(&mut m, l.debug_name());
                push_str(&mut m, " not found");
                m
            },
            LoadError::CompilationFailed(l, msg) => {
                let mut m = string_from("Compilation of ");
                push_str(&mut m, l.debug_name());
                push_str(&mut m, " failed: ");
                push_str(&mut m, msg.as_str());
                m
            },
            LoadError::Io { path, error } => {
                let mut m = string_from("IO error for ");
                let shown = display_string(buf_as_path(path));
                push_str(&mut m, shown.as_str());
                push_str(&mut m, ": ");
                let text = io_error_text(error);
                push_str(&mut m, text.as_str());
                assert(m@ == "IO error for "@ + shown@ + ": "@ + text@);
                m
            },
            LoadError::BindingFailed(msg) => {
                let mut m = string_from("Binding generation failed: ");
                push_str(&mut m, msg.as_str());
                m
            },
            LoadError::ExportFailed(msg) => {
                let mut m = string_from("Export discovery failed: ");
                push_str(&mut m, msg.as_str());
                m
            },
            LoadError::ImportFailed(msg) => {
                let mut m = string_from("Import generation failed: ");
                push_str(&mut m, msg.as_str());
                m
            },
        }
    }
}

/// Whether a load generates Rust bindings: only where compiling left a C
/// header and the options ask for bindings.
pub fn bindings_wanted(header_path: &Option<std::path::PathBuf>, options: &LoadOptions) -> (r: bool)
    ensures
        r == (header_path.is_some() && options.generate_bindings),
{
    match header_path {
        Some(_) => options.generate_bindings,
        None => false,
    }
}

/// The file whose declarations the generated imports are read from: the C
/// header that compiling left, else the source itself.
pub fn import_source(header_path: &Option<std::path::PathBuf>, source: &std::path::Path) -> (r: std::path::PathBuf)
    ensures
        match header_path {
            Some(h) => r == *h,
            None => buf_path(&r) == source,
        },
{
    match header_path {
        Some(h) => h.clone(),
        None => to_path_buf(source),
    }
}

/// The warnings of all generated imports, one import after the other.
pub open spec fn import_warnings(imports: Seq<GeneratedImport>) -> Seq<Seq<char>> {
    imports.map_values(|g: GeneratedImport| string_views(g.warnings@)).flatten()
}

/// The warnings a load reports: those of export discovery first, then those
/// of each generated import, in the order the imports were made.
pub fn load_warnings(export_warnings: Vec<String>, imports: &[GeneratedImport]) -> (r: Vec<String>)
    ensures
        string_views(r@) == string_views(export_warnings@) + import_warnings(imports@),
{
    let ghost base = string_views(export_warnings@);
    let mut r = export_warnings;
    let mut i: usize = 0;
    while i < imports.len()
        invariant
            i <= imports@.len(),
            string_views(r@) == base + import_warnings(imports@.take(i as int)),
        decreases imports.len() - i,
    {
        let w = &imports[i].warnings;
        let ghost before = string_views(r@);
        let mut j: usize = 0;
        while j < w.len()
            invariant
                j <= w@.len(),
                string_views(r@) == before + string_views(w@.take(j as int)),
            decreases w.len() - j,
        {
            let ghost prev = r@;
            r.push(w[j].clone());
            assert(string_views(r@) =~= string_views(prev).push(w@[j as int]@));
            assert(string_views(w@.take(j + 1)) =~= string_views(w@.take(j as int)).push(w@[j as int]@));
            j += 1;
        }
        assert(w@.take(j as int) =~= w@);
        proof {
            let f = |g: GeneratedImport| string_views(g.warnings@);
            let m0 = imports@.take(i as int).map_values(f);
            assert(imports@.take(i + 1).map_values(f) =~= m0.push(string_views(w@)));
            m0.lemma_flatten_push(string_views(w@));
        }
        i += 1;
    }
    assert(imports@.take(i as int) =~= imports@);
    r
}

} // verus!
