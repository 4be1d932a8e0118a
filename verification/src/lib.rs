//! A small source-to-source translator from OMG IDL declarations to Rust type
//! definitions: a lexer and recursive-descent parser build a generic parse
//! tree, a semantic pass registers the declarations in a scoped module tree,
//! and an emitter serializes that tree deterministically to Rust source text.
use vstd::prelude::*;

pub mod ast;
pub mod emit;
pub mod lexer;
pub mod parser;
pub mod processor;
pub mod tree;

verus! {

use std::collections::HashMap;
use vstd::string::StringExecFns;
use crate::tree::ParseNode;

/// The error kinds of the generator: an internal resolution path that should
/// be unreachable, a parse node whose rule did not match what the current
/// step required, a syntax error with its message, and a file that no search
/// root could supply.
#[derive(Debug)]
pub enum IdlError {
    InternalError,
    UnexpectedItem(crate::tree::RuleTag),
    ExpectedItem(crate::tree::RuleTag),
    ErrorMesg(String),
    NotFound,
}

/// Mathematical view of `IdlError`.
#[verifier::ext_equal]
pub enum ErrorView {
    InternalError,
    UnexpectedItem(crate::tree::RuleTag),
    ExpectedItem(crate::tree::RuleTag),
    ErrorMesg(Seq<char>),
    NotFound,
}

impl View for IdlError {
    type V = ErrorView;

    open spec fn view(&self) -> ErrorView {
        match self {
            IdlError::InternalError => ErrorView::InternalError,
            IdlError::UnexpectedItem(r) => ErrorView::UnexpectedItem(*r),
            IdlError::ExpectedItem(r) => ErrorView::ExpectedItem(*r),
            IdlError::ErrorMesg(s) => ErrorView::ErrorMesg(s@),
            IdlError::NotFound => ErrorView::NotFound,
        }
    }
}

/// A capability that resolves an include file name to its contents.
pub trait IdlLoader {
    fn load(&self, filename: &str) -> Result<String, IdlError>;
}

/// Generator configuration: predefined macro names with their values, and a
/// verbosity flag.
#[derive(Debug)]
pub struct Configuration {
    pub definition: HashMap<String, String>,
    pub verbose: bool,
}

impl Configuration {
    /// A configuration with the given macro definitions and verbosity.
    pub fn new(defs: HashMap<String, String>, verbose: bool) -> (r: Configuration)
        ensures
            r.verbose == verbose,
            r.definition == defs,
    {
        Configuration { definition: defs, verbose }
    }
}

impl Default for Configuration {
    fn default() -> (r: Configuration)
        ensures
            r.verbose == false,
    {
        Configuration { definition: HashMap::new(), verbose: false }
    }
}

/// Placeholder for configuration-driven preloading: the generation pass reads
/// no files itself, so this always supplies empty contents.
pub fn load_idl(config: &Configuration, path: &str) -> (r: Result<String, IdlError>)
    ensures
        r matches Ok(s) && s@ == Seq::<char>::empty(),
{
    Ok(String::new())
}

/// A loader that records an ordered list of search-path roots. Resolving
/// include files against the file system is left to the embedding
/// application; the generation pass itself never consults the loader, since
/// include directives are recognized syntactically and skipped, so this
/// loader reports every request as not found.
#[derive(Debug)]
pub struct Loader {
    pub search_path: Vec<String>,
}

impl Loader {
    /// A loader over the given search-path roots.
    pub fn new(search_path: Vec<String>) -> (r: Loader)
        ensures
            r.search_path@ == search_path@,
    {
        Loader { search_path }
    }
}

impl IdlLoader for Loader {
    fn load(&self, filename: &str) -> Result<String, IdlError> {
        Err(IdlError::NotFound)
    }
}


/// Runs the whole generation pass over an already-built parse tree: the
/// semantic walk populates the module tree, and on success the fixed prelude
/// and the rendered root scope are appended to the output buffer. On any
/// resolution failure nothing is written.
pub fn generate_from_tree(out: &mut String, config: &Configuration, nodes: &Vec<ParseNode>) -> (r:
    Result<(), IdlError>)
    ensures
        ({
            let s = crate::processor::spec_process_seq(
                crate::processor::empty_root(),
                Seq::<Seq<char>>::empty(),
                crate::tree::nodes_view(nodes@),
                0,
            );
            match r {
                Result::Ok(_) => s matches Result::Ok(m) && crate::ast::module_wf(m)
                    && final(out)@ == old(out)@
                    + "#[allow(unused_imports)]\nuse std::vec::Vec;\n"@
                    + crate::emit::module_text(m, Seq::<char>::empty()),
                Result::Err(e) => s == Result::<
                    crate::ast::ModuleView,
                    ErrorView,
                >::Err(e@) && final(out)@ == old(out)@,
            }
        }),
        (forall|k: int|
            0 <= k < nodes@.len() ==> crate::tree::node_wf(
                crate::tree::node_view(#[trigger] nodes@[k]),
            )) ==> r is Ok,
{
    let mut data = crate::processor::ProcessData::new(config);
    let mut scope: Vec<String> = Vec::new();
    proof {
        assert(crate::tree::scope_view(scope@) =~= Seq::<Seq<char>>::empty());
    }
    let res = data.process_seq(&mut scope, nodes, 0);
    match res {
        Result::Ok(_) => {
            proof {
                assert(crate::ast::module_wf(crate::processor::empty_root()));
                crate::processor::lemma_process_seq_wf(
                    crate::processor::empty_root(),
                    Seq::<Seq<char>>::empty(),
                    crate::tree::nodes_view(nodes@),
                    0,
                );
            }
            out.append("#[allow(unused_imports)]\nuse std::vec::Vec;\n");
            data.root_module.write(out, 0);
            proof {
                assert(crate::emit::spec_indent(0) =~= Seq::<char>::empty());
                assert(final(out)@ =~= old(out)@
                    + "#[allow(unused_imports)]\nuse std::vec::Vec;\n"@
                    + crate::emit::module_text(data.root_module@, Seq::<char>::empty()));
            }
            Ok(())
        },
        Result::Err(e) => {
            proof {
                if forall|k: int|
                    0 <= k < nodes@.len() ==> crate::tree::node_wf(
                        crate::tree::node_view(#[trigger] nodes@[k]),
                    ) {
                    assert forall|k: int|
                        0 <= k < crate::tree::nodes_view(nodes@).len() implies crate::tree::node_wf(
                        #[trigger] crate::tree::nodes_view(nodes@)[k],
                    ) by {
                        assert(crate::tree::nodes_view(nodes@)[k] == crate::tree::node_view(
                            nodes@[k],
                        ));
                    }
                    crate::tree::lemma_children_wf_from_forall(
                        crate::tree::nodes_view(nodes@),
                        0,
                    );
                    crate::processor::lemma_process_seq_total(
                        crate::processor::empty_root(),
                        Seq::<Seq<char>>::empty(),
                        crate::tree::nodes_view(nodes@),
                        0,
                    );
                }
            }
            Err(e)
        },
    }
}

/// The generation entrypoint: parses the IDL text, builds the declaration
/// model, and appends the generated source to the output buffer. The loader
/// is part of the interface for include resolution, which the pass does not
/// currently perform: include directives are recognized and skipped. On any
/// error nothing is written, and the output buffer is untouched; generation
/// fails only when the text does not parse, never in the semantic phase,
/// since the parser produces only well-shaped trees.
pub fn generate_with_loader<L: IdlLoader>(
    out: &mut String,
    _loader: &mut L,
    config: &Configuration,
    idldecl: &str,
) -> (r: Result<(), IdlError>)
    ensures
        r is Err ==> final(out)@ == old(out)@,
        ({
            match crate::parser::spec_parse_specification(idldecl@) {
                Result::Ok(ns) => r is Ok && (crate::processor::spec_process_seq(
                    crate::processor::empty_root(),
                    Seq::<Seq<char>>::empty(),
                    ns,
                    0,
                ) matches Result::Ok(m) && crate::ast::module_wf(m) && final(out)@ == old(out)@
                    + "#[allow(unused_imports)]\nuse std::vec::Vec;\n"@
                    + crate::emit::module_text(m, Seq::<char>::empty())),
                Result::Err(e) => r matches Result::Err(e2) && e2@ == e,
            }
        }),
{
    let nodes = match crate::parser::parse_specification(idldecl) {
        Result::Ok(ns) => ns,
        Result::Err(e) => {
            return Err(e);
        },
    };
    let res = generate_from_tree(out, config, &nodes);
    proof {
        assert forall|k: int|
            0 <= k < crate::tree::nodes_view(nodes@).len() implies crate::tree::node_wf(
            #[trigger] crate::tree::nodes_view(nodes@)[k],
        ) by {
            assert(crate::tree::nodes_view(nodes@)[k] == crate::tree::node_view(nodes@[k]));
        }
    }
    match res {
        Result::Ok(_) => Ok(()),
        Result::Err(e) => Err(e),
    }
}

/// Generation over a file-system search path: builds the search-path loader
/// and runs the generation entrypoint with it.
pub fn generate_with_search_path(
    out: &mut String,
    search_path: Vec<String>,
    config: &Configuration,
    data: &str,
) -> (r: Result<(), IdlError>)
    ensures
        r is Err ==> final(out)@ == old(out)@,
        ({
            match crate::parser::spec_parse_specification(data@) {
                Result::Ok(ns) => r is Ok && (crate::processor::spec_process_seq(
                    crate::processor::empty_root(),
                    Seq::<Seq<char>>::empty(),
                    ns,
                    0,
                ) matches Result::Ok(m) && crate::ast::module_wf(m) && final(out)@ == old(out)@
                    + "#[allow(unused_imports)]\nuse std::vec::Vec;\n"@
                    + crate::emit::module_text(m, Seq::<char>::empty())),
                Result::Err(e) => r matches Result::Err(e2) && e2@ == e,
            }
        }),
{
    let mut loader = Loader::new(search_path);
    generate_with_loader(out, &mut loader, config, data)
}

} // verus!
