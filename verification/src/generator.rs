//! The code generator: from IDL documents to the source text of their
//! data types, clients and servers.
//!
//! The files are read beforehand; the generator walks them along their
//! includes, each file once, and refuses includes that form a cycle. A
//! file that could not be read stands as `UNREAD`, so that the walk fails
//! where it comes to it and a failure that the walk meets before comes
//! first.

use vstd::prelude::*;
use vstd::string::*;

use crate::generator::code_gen::document::{document_text, services_generable};
use crate::generator::code_gen::errors::CodeGenError;
use crate::generator::code_gen::{paths_of, split_path, CodeGenContext};
use crate::generator::errors::{GenerateError, GenerateResult};
use crate::generator::node::Node;
use crate::generator::tokens::{render, token_text};
use crate::thrift_parser::document::DocumentModel;
use crate::thrift_parser::{lemma_deep_empty, lemma_deep_push};

pub mod code_gen;
pub mod cycles;
pub mod definitions;
pub mod errors;
pub mod node;
pub mod simple;
pub mod tokens;

verus! {

/// What is to be generated: the IDL files and the path of the output.
pub struct Generator {
    // the IDL files to start from
    idls: Vec<String>,
    // where the source text goes
    output: Option<String>,
}

impl Default for Generator {
    fn default() -> (r: Self)
        ensures
            r.idl_paths() == Seq::<Seq<char>>::empty(),
            r.output_path() is None,
    {
        Self::new()
    }
}

impl Generator {
    /// The paths of the IDL files, in the order in which they were
    /// added.
    pub closed spec fn idl_paths(self) -> Seq<Seq<char>> {
        self.idls.deep_view()
    }

    /// The path of the output, where one was set.
    pub closed spec fn output_path(self) -> Option<Seq<char>> {
        match self.output {
            Some(p) => Some(p@),
            None => None,
        }
    }

    /// Create a generator
    pub fn new() -> (r: Self)
        ensures
            r.idl_paths() == Seq::<Seq<char>>::empty(),
            r.output_path() is None,
    {
        let r = Self { idls: Vec::new(), output: None };
        proof {
            lemma_deep_empty(r.idls);
        }
        r
    }

    /// Add IDL file
    pub fn add_idl(self, p: &str) -> (r: Self)
        ensures
            r.idl_paths() == self.idl_paths().push(p@),
            r.output_path() == self.output_path(),
    {
        let mut g = self;
        let ghost before = g.idls;
        let path = String::from_str(p);
        g.idls.push(path);
        proof {
            lemma_deep_push(before, g.idls, path);
        }
        g
    }

    /// Set output file path
    pub fn output(self, p: &str) -> (r: Self)
        ensures
            r.idl_paths() == self.idl_paths(),
            r.output_path() == Some(p@),
    {
        let mut g = self;
        g.output = Some(String::from_str(p));
        g
    }

    /// The paths of the IDL files.
    pub fn idls(&self) -> (r: &Vec<String>)
        ensures
            r.deep_view() == self.idl_paths(),
    {
        &self.idls
    }

    /// The path of the output, where one was set.
    pub fn output_file(&self) -> (r: Option<&String>)
        ensures
            match self.output_path() {
                Some(p) => r is Some && r->Some_0@ == p,
                None => r is None,
            },
    {
        match &self.output {
            Some(p) => Some(p),
            None => None,
        }
    }
}

/// One IDL file that was read, and the files that its includes name, as
/// their positions among the files that were read.
pub struct Source {
    pub node: Node,
    pub includes: Vec<usize>,
}

/// One IDL file as mathematics.
pub struct SourceModel {
    pub document: DocumentModel,
    pub namespace: Seq<char>,
    pub includes: Seq<usize>,
}

impl View for Source {
    type V = SourceModel;

    open spec fn view(&self) -> SourceModel {
        SourceModel {
            document: self.node.document_model(),
            namespace: self.node.namespace_text(),
            includes: self.includes@,
        }
    }
}

/// The files that were read, as mathematics.
pub open spec fn files_of(sources: Vec<Source>) -> Seq<SourceModel> {
    Seq::new(sources@.len(), |i: int| sources@[i]@)
}

/// The index that stands for a file that could not be read: it names no
/// file, so the walk refuses it where it comes to it.
pub const UNREAD: usize = usize::MAX;

/// Why the walk over the files failed.
pub enum Failure {
    /// The includes form a cycle.
    Loop,
    /// An include names a file that was not read.
    Missing,
    /// A document could not be turned into code.
    CodeGen(CodeGenError),
}

impl GenerateError {
    /// The failure of the walk over the files that this error reports,
    /// if it is one.
    pub open spec fn failure(self) -> Option<Failure> {
        match self {
            GenerateError::Loop() => Some(Failure::Loop),
            GenerateError::Path(text) => if text@ == "an include was not read"@ {
                Some(Failure::Missing)
            } else {
                None
            },
            GenerateError::CodeGen(e) => Some(Failure::CodeGen(e)),
            _ => None,
        }
    }
}

/// How far the walk has got: the files that are done, in the order in
/// which they were finished, and the source text so far.
pub type Progress = Result<(Seq<usize>, Seq<char>), Failure>;

/// The namespaces of the first `n` files that the includes name.
pub open spec fn included_namespaces(files: Seq<SourceModel>, includes: Seq<usize>, n: int)
    -> Seq<Seq<char>> {
    Seq::new(
        n as nat,
        |i: int|
            if 0 <= i < includes.len() && includes[i] < files.len() {
                files[includes[i] as int].namespace
            } else {
                Seq::empty()
            },
    )
}

/// What the file at `v` contributes to the source text: its document
/// under the namespaces of its includes and its own, with a space
/// behind it.
pub open spec fn contribution(files: Seq<SourceModel>, v: usize) -> Result<Seq<char>, Failure> {
    let file = files[v as int];
    if services_generable(file.document.services, file.document.services.len() as int) {
        Ok(
            document_text(
                file.document,
                paths_of(included_namespaces(files, file.includes, file.includes.len() as int)),
                split_path(file.namespace),
            ) + " "@,
        )
    } else {
        Err(Failure::CodeGen(CodeGenError::MissingExceptionId))
    }
}

/// The walk at the file `v`: a file that is on the way from the root is
/// a cycle; a file that is done is passed over; else the files that it
/// includes are walked first, in their order, and then the file
/// contributes its text and is done. `fuel` bounds the depth.
pub open spec fn visit(
    files: Seq<SourceModel>,
    v: usize,
    done: Seq<usize>,
    on_path: Seq<usize>,
    out: Seq<char>,
    fuel: nat,
) -> Progress
    decreases fuel, 0nat,
{
    if v >= files.len() {
        Err(Failure::Missing)
    } else if on_path.contains(v) {
        Err(Failure::Loop)
    } else if done.contains(v) {
        Ok((done, out))
    } else if fuel == 0 {
        Err(Failure::Loop)
    } else {
        match visit_includes(
            files,
            files[v as int].includes,
            0,
            done,
            on_path.push(v),
            out,
            (fuel - 1) as nat,
        ) {
            Err(f) => Err(f),
            Ok((done1, out1)) => match contribution(files, v) {
                Err(f) => Err(f),
                Ok(text) => Ok((done1.push(v), out1 + text)),
            },
        }
    }
}

/// The walk over the includes from the `k`-th on.
pub open spec fn visit_includes(
    files: Seq<SourceModel>,
    includes: Seq<usize>,
    k: int,
    done: Seq<usize>,
    on_path: Seq<usize>,
    out: Seq<char>,
    fuel: nat,
) -> Progress
    decreases fuel, 1nat, includes.len() - k,
{
    if k < 0 || k >= includes.len() {
        Ok((done, out))
    } else {
        match visit(files, includes[k], done, on_path, out, fuel) {
            Err(f) => Err(f),
            Ok((done1, out1)) => visit_includes(files, includes, k + 1, done1, on_path, out1, fuel),
        }
    }
}

/// The walk over the roots from the `k`-th on.
pub open spec fn visit_roots(
    files: Seq<SourceModel>,
    roots: Seq<usize>,
    k: int,
    done: Seq<usize>,
    out: Seq<char>,
) -> Progress
    decreases roots.len() - k,
{
    if k < 0 || k >= roots.len() {
        Ok((done, out))
    } else {
        match visit(files, roots[k], done, Seq::empty(), out, files.len() + 1) {
            Err(f) => Err(f),
            Ok((done1, out1)) => visit_roots(files, roots, k + 1, done1, out1),
        }
    }
}

/// The source text that the roots generate, or why the walk failed.
pub open spec fn generated_source(files: Seq<SourceModel>, roots: Seq<usize>) -> Result<
    Seq<char>,
    Failure,
> {
    match visit_roots(files, roots, 0, Seq::empty(), Seq::empty()) {
        Ok((_, out)) => Ok(out),
        Err(f) => Err(f),
    }
}

/// The state of the walk.
pub struct Walk {
    /// The files that are done, in the order in which they were
    /// finished. They are a set: a walk that starts with no file twice
    /// among them ends with no file twice among them.
    pub generated: Vec<usize>,
    /// The files on the way from the root to the current file.
    pub generating: Vec<usize>,
    /// The source text so far.
    pub output: String,
}

/// Whether the vector holds the value.
pub fn holds(v: &Vec<usize>, x: usize) -> (r: bool)
    ensures
        r == v@.contains(x),
{
    let mut i: usize = 0;
    while i < v.len()
        invariant
            i <= v.len(),
            forall|j: int| 0 <= j < i ==> v@[j] != x,
        decreases v.len() - i,
    {
        if v[i] == x {
            return true;
        }
        i = i + 1;
    }
    false
}

impl Walk {
    /// A walk that has not started.
    pub fn new() -> (r: Self)
        ensures
            r.generated@ == Seq::<usize>::empty(),
            r.generating@ == Seq::<usize>::empty(),
            r.output@ == Seq::<char>::empty(),
    {
        Walk { generated: Vec::new(), generating: Vec::new(), output: String::new() }
    }

    /// Walks the file at `v` and what it includes. A file that is on the
    /// path that led here is refused as a cycle, and so is one that was
    /// not read; both are refused before anything is done, so the files
    /// that are done and the source text stay as they were.
    pub fn generate(&mut self, sources: &Vec<Source>, v: usize, fuel: usize) -> (r:
        GenerateResult<()>)
        ensures
            final(self).generating@ == old(self).generating@,
            v >= sources@.len() || old(self).generating@.contains(v) ==> r is Err
                && final(self).generated@ == old(self).generated@
                && final(self).output@ == old(self).output@,
            v < sources@.len() && old(self).generating@.contains(v) ==> r == Err::<
                (),
                GenerateError,
            >(GenerateError::Loop()),
            match visit(
                files_of(*sources),
                v,
                old(self).generated@,
                old(self).generating@,
                old(self).output@,
                fuel as nat,
            ) {
                Ok((done, out)) => r is Ok && final(self).generated@ == done
                    && final(self).output@ == out,
                Err(f) => r is Err && r->Err_0.failure() == Some(f),
            },
        decreases fuel, 0nat,
    {
        if v >= sources.len() {
            return Err(GenerateError::Path(String::from_str("an include was not read")));
        }
        if holds(&self.generating, v) {
            // the file is on the path that led here: its includes form a cycle
            return Err(GenerateError::Loop());
        }

        if holds(&self.generated, v) {
            // the file is done: nothing is emitted twice
            return Ok(());
        }
        if fuel == 0 {
            return Err(GenerateError::Loop());
        }
        // the file is on the path from here on

        self.generating.push(v);
        let ghost files = files_of(*sources);
        let ghost on_path = old(self).generating@.push(v);
        let source = &sources[v];
        let mut include_namespaces: Vec<String> = Vec::new();
        let mut k: usize = 0;
        proof {
            lemma_deep_empty(include_namespaces);
            assert(included_namespaces(files, source.includes@, 0) =~= Seq::<Seq<char>>::empty());
        }
        while k < source.includes.len()
            invariant
                k <= source.includes.len(),
                v < sources.len(),
                files == files_of(*sources),
                *source == sources@[v as int],
                self.generating@ == on_path,
                on_path == old(self).generating@.push(v),
                !old(self).generating@.contains(v),
                !old(self).generated@.contains(v),
                fuel > 0,
                include_namespaces.deep_view() == included_namespaces(
                    files,
                    source.includes@,
                    k as int,
                ),
                visit_includes(
                    files,
                    source.includes@,
                    k as int,
                    self.generated@,
                    on_path,
                    self.output@,
                    (fuel - 1) as nat,
                ) == visit_includes(
                    files,
                    source.includes@,
                    0,
                    old(self).generated@,
                    on_path,
                    old(self).output@,
                    (fuel - 1) as nat,
                ),
            decreases source.includes.len() - k,
        {
            let inc = source.includes[k];
            // what the file includes comes before the file
            match self.generate(sources, inc, fuel - 1) {
                Ok(()) => {},
                Err(e) => {
                    self.generating.pop();
                    assert(self.generating@ =~= old(self).generating@);
                    return Err(e);
                },
            }
            let ghost before = include_namespaces;
            let namespace = String::from_str(sources[inc].node.namespace());
            include_namespaces.push(namespace);
            proof {
                lemma_deep_push(before, include_namespaces, namespace);
                assert(include_namespaces.deep_view() =~= included_namespaces(
                    files,
                    source.includes@,
                    k + 1,
                ));
            }
            k = k + 1;
        }
        let context = CodeGenContext::new(
            include_namespaces,
            String::from_str(source.node.namespace()),
        );
        let text = match source.node.document().write_token(&context) {
            Ok(text) => text,
            Err(e) => {
                self.generating.pop();
                assert(self.generating@ =~= old(self).generating@);
                return Err(GenerateError::CodeGen(e));
            },
        };
        self.output.append(text.as_str());
        self.output.append(" ");
        // The file leaves the path and is done.
        self.generating.pop();
        self.generated.push(v);
        proof {
            assert(self.generating@ =~= old(self).generating@);
            let out1 = visit_includes(
                files,
                source.includes@,
                0,
                old(self).generated@,
                on_path,
                old(self).output@,
                (fuel - 1) as nat,
            )->Ok_0.1;
            assert(self.output@ =~= out1 + (text@ + " "@));
        }
        Ok(())
    }
}

impl Generator {
    /// The source text that the roots generate: each file behind the
    /// files that it includes, and each file once. Includes that form a
    /// cycle are refused, and so is an include that names a file that was
    /// not read, and a function whose exceptions lack a field id.
    pub fn generate_source(sources: &Vec<Source>, roots: &Vec<usize>) -> (r: GenerateResult<
        String,
    >)
        requires
            sources@.len() < usize::MAX,
        ensures
            match generated_source(files_of(*sources), roots@) {
                Ok(out) => r is Ok && r->Ok_0@ == out,
                Err(f) => r is Err && r->Err_0.failure() == Some(f),
            },
    {
        let mut walk = Walk::new();
        let mut k: usize = 0;
        while k < roots.len()
            invariant
                k <= roots.len(),
                sources@.len() < usize::MAX,
                walk.generating@ == Seq::<usize>::empty(),
                visit_roots(files_of(*sources), roots@, k as int, walk.generated@, walk.output@)
                    == visit_roots(files_of(*sources), roots@, 0, Seq::empty(), Seq::empty()),
            decreases roots.len() - k,
        {
            walk.generate(sources, roots[k], sources.len() + 1)?;
            k = k + 1;
        }
        Ok(walk.output)
    }

    /// The source text that the roots generate, token by token.
    pub fn generate_token_stream(sources: &Vec<Source>, roots: &Vec<usize>) -> (r:
        GenerateResult<String>)
        requires
            sources@.len() < usize::MAX,
        ensures
            match generated_source(files_of(*sources), roots@) {
                Ok(out) => match token_text(out) {
                    Some(text) => r is Ok && r->Ok_0@ == text,
                    None => r is Err && r->Err_0.failure() == Some(
                        Failure::CodeGen(CodeGenError::Tokens),
                    ),
                },
                Err(f) => r is Err && r->Err_0.failure() == Some(f),
            },
    {
        let source = Self::generate_source(sources, roots)?;
        match render(source.as_str()) {
            Some(text) => Ok(text),
            None => Err(GenerateError::CodeGen(CodeGenError::Tokens)),
        }
    }

    /// What a run gives where the files were read only as far as the
    /// first that could not be read, which stands among the includes and
    /// the roots as `UNREAD`. Where the walk came to that file, the
    /// failure to read it is the failure of the run; where the walk
    /// failed before, that failure came first.
    pub fn first_failure(walked: GenerateResult<String>, unread: Option<GenerateError>) -> (r:
        GenerateResult<String>)
        ensures
            r == (match unread {
                None => walked,
                Some(failure) => match walked {
                    Ok(_) => Err(failure),
                    Err(e) => if e.failure() == Some(Failure::Missing) {
                        Err(failure)
                    } else {
                        Err(e)
                    },
                },
            }),
    {
        match unread {
            None => walked,
            Some(failure) => match walked {
                Ok(_) => Err(failure),
                Err(GenerateError::Path(text)) => {
                    if text == String::from_str("an include was not read") {
                        Err(failure)
                    } else {
                        Err(GenerateError::Path(text))
                    }
                },
                Err(e) => Err(e),
            },
        }
    }
}

} // verus!
