//! The parser library that reads source code: its types, its calls, and
//! the names for what the calls give back.
//!
//! Nothing in this file is proved. The parser library works on its
//! arguments alone: one grammar and one source give one tree, one grammar
//! and one pattern give one query, one query on one tree gives the same
//! matches every time. What it gives is too much to write down, so each
//! answer has a name, and the calls are taken to give what the names say.
//! A tree and a query are handles without a look inside; each has names for
//! what it was made with.

use vstd::prelude::*;
use crate::lang::{query_pattern, ProgItem};
use crate::search::{captures_of, CapturedNode};

verus! {

/// A grammar of `tree_sitter`.
#[verifier::external_type_specification]
#[verifier::external_body]
pub struct ExLanguage(tree_sitter::Language);

/// A syntax tree of `tree_sitter`.
#[verifier::external_type_specification]
#[verifier::external_body]
pub struct ExTree(tree_sitter::Tree);

/// A compiled query of `tree_sitter`.
#[verifier::external_type_specification]
#[verifier::external_body]
pub struct ExQuery(tree_sitter::Query);

/// The error of `tree_sitter` for a grammar of another version.
#[verifier::external_type_specification]
#[verifier::external_body]
pub struct ExLanguageError(tree_sitter::LanguageError);

/// The error of `tree_sitter` for a query that does not compile.
#[verifier::external_type_specification]
#[verifier::external_body]
pub struct ExQueryError(tree_sitter::QueryError);

/// The number of a grammar: 0 for that of Python, 1 for that of Rust.
pub uninterp spec fn grammar_number(language: tree_sitter::Language) -> int;

/// Whether `Parser::parse`, on a new parser that was given the grammar,
/// gives a tree for the source.
pub uninterp spec fn tree_given(grammar: int, source: Seq<char>) -> bool;

/// The number of the grammar that a tree was grown with.
pub uninterp spec fn tree_grammar(tree: tree_sitter::Tree) -> int;

/// The source that a tree was grown from.
pub uninterp spec fn tree_source(tree: tree_sitter::Tree) -> Seq<char>;

/// Whether `Node::has_error` holds of the root of the tree that the
/// grammar gives for the source: whether the source has a syntax error.
pub uninterp spec fn source_has_error(grammar: int, source: Seq<char>) -> bool;

/// Whether `Query::new` compiles the pattern for the grammar.
pub uninterp spec fn pattern_fits(grammar: int, pattern: Seq<char>) -> bool;

/// The number of the grammar that a query was compiled for.
pub uninterp spec fn query_grammar(query: tree_sitter::Query) -> int;

/// The pattern that a query was compiled from.
pub uninterp spec fn query_text(query: tree_sitter::Query) -> Seq<char>;

/// The capture names that `Query::capture_names` lists for the query of a
/// pattern.
pub uninterp spec fn pattern_names(grammar: int, pattern: Seq<char>) -> Seq<Seq<char>>;

/// The matches that `QueryCursor::matches` finds, in their order, each
/// with its captured nodes: those of the query of a pattern for a grammar,
/// on the root of the tree that a grammar gives for a source, with `text`
/// as the text that predicates of the pattern are held against.
pub uninterp spec fn matches_in(
    grammar: int,
    pattern: Seq<char>,
    tree_grammar: int,
    source: Seq<char>,
    text: Seq<char>,
) -> Seq<Seq<CapturedNode>>;

/// The texts of a list of names.
pub open spec fn name_texts(names: Seq<String>) -> Seq<Seq<char>> {
    names.map_values(|name: String| name@)
}

/// The first place at or behind `from` at which `name` stands in `names`.
pub open spec fn place_from(names: Seq<Seq<char>>, name: Seq<char>, from: int) -> Option<int>
    decreases names.len() - from,
{
    if from < 0 || from >= names.len() {
        None
    } else if names[from] == name {
        Some(from)
    } else {
        place_from(names, name, from + 1)
    }
}

/// The number of a capture name: the first place at which it stands among
/// the capture names.
pub open spec fn number_of_name(names: Seq<Seq<char>>, name: Seq<char>) -> Option<u32> {
    match place_from(names, name, 0) {
        Some(place) => Some(place as u32),
        None => None,
    }
}

/// `tree_sitter_python::language` hands out the Python grammar. It is
/// taken to have the number 0.
pub assume_specification[ tree_sitter_python::language ]() -> (language: tree_sitter::Language)
    ensures
        grammar_number(language) == 0,
;

/// `tree_sitter_rust::language` hands out the Rust grammar. It is taken to
/// have the number 1.
pub assume_specification[ tree_sitter_rust::language ]() -> (language: tree_sitter::Language)
    ensures
        grammar_number(language) == 1,
;

/// `Parser::new`, `Parser::set_language` and `Parser::parse`: a new parser
/// is given the grammar and then the whole source. Both answers come back,
/// that to the grammar and that to the source. There is no tree without a
/// grammar; whether there is one is a matter of grammar and source alone,
/// since the parser is new: it has no time limit and nothing stops it. The
/// tree is one of this grammar and this source.
#[verifier::external_body]
pub(crate) fn grow_tree(grammar: tree_sitter::Language, source: &str) -> (answer: (
    Result<(), tree_sitter::LanguageError>,
    Option<tree_sitter::Tree>,
))
    ensures
        answer.1 is Some ==> answer.0 is Ok,
        answer.1 is Some <==> tree_given(grammar_number(grammar), source@),
        answer.1 matches Some(tree) ==> tree_grammar(tree) == grammar_number(grammar)
            && tree_source(tree) == source@,
{
    let mut parser = tree_sitter::Parser::new();
    let set = parser.set_language(grammar);
    let tree = parser.parse(source, None);
    (set, tree)
}

/// `Node::has_error` on the root of a tree (`Tree::root_node`): whether
/// the source that the tree was grown from has a syntax error anywhere.
#[verifier::external_body]
pub(crate) fn tree_is_broken(tree: &tree_sitter::Tree) -> (broken: bool)
    ensures
        broken == source_has_error(tree_grammar(*tree), tree_source(*tree)),
{
    tree.root_node().has_error()
}

/// `Query::new` compiles a pattern for a grammar, or says why it cannot;
/// which of the two is a matter of grammar and pattern alone, and the
/// query is one of this grammar and this pattern. Where it reports a name
/// that the grammar lacks, it reads the pattern from that name to the next
/// character that cannot stand in a name, and panics if there is none. In
/// the patterns of the item kinds a bracket or a space follows every name,
/// so the call is made with those only.
#[verifier::external_body]
pub(crate) fn compile_query(language: tree_sitter::Language, pattern: &str) -> (query: Result<
    tree_sitter::Query,
    tree_sitter::QueryError,
>)
    requires
        exists|item: ProgItem| pattern@ == #[trigger] query_pattern(item),
    ensures
        query is Ok <==> pattern_fits(grammar_number(language), pattern@),
        query matches Ok(ready) ==> query_grammar(ready) == grammar_number(language)
            && query_text(ready) == pattern@,
{
    tree_sitter::Query::new(language, pattern)
}

/// `Query::capture_names` lists the names that the pattern captures
/// under. They are those of the query's pattern, and there are no more of
/// them than a `u32` counts.
pub assume_specification<'a>[ tree_sitter::Query::capture_names ](
    query: &'a tree_sitter::Query,
) -> (names: &'a [String])
    ensures
        names@.len() <= u32::MAX,
        name_texts(names@) == pattern_names(query_grammar(*query), query_text(*query)),
;

/// `Query::capture_index_for_name` gives the number of a capture name: the
/// first place at which the name stands among the capture names of the
/// query, and nothing where it does not stand there.
pub assume_specification[ tree_sitter::Query::capture_index_for_name ](
    query: &tree_sitter::Query,
    name: &str,
) -> (index: Option<u32>)
    ensures
        index == number_of_name(
            pattern_names(query_grammar(*query), query_text(*query)),
            name@,
        ),
;

/// `QueryCursor::matches` on the root of a tree, with a new cursor: the
/// matches of the query in the order in which they are found, each with
/// the nodes it captured, a node by the number of its capture name and its
/// place in the source (`Node::range`). They are a matter of the query,
/// the tree and the text alone.
#[verifier::external_body]
pub(crate) fn query_matches(query: &tree_sitter::Query, tree: &tree_sitter::Tree, source: &str)
    -> (found: Vec<Vec<CapturedNode>>)
    ensures
        captures_of(found@) == matches_in(
            query_grammar(*query),
            query_text(*query),
            tree_grammar(*tree),
            tree_source(*tree),
            source@,
        ),
{
    let mut cursor = tree_sitter::QueryCursor::new();
    let matches = cursor.matches(query, tree.root_node(), source.as_bytes());
    matches.map(|m| m.captures.iter().map(|c| {
        let place = c.node.range();
        CapturedNode {
            index: c.index,
            start_byte: place.start_byte,
            end_byte: place.end_byte,
            start_row: place.start_point.row,
            end_row: place.end_point.row,
        }
    }).collect()).collect()
}

} // verus!
