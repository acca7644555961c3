//! Finding the items of a kind in source code.
//!
//! The parser library reads the source and runs the query pattern of the
//! item kind; what it captures is held here as plain numbers, checked
//! against the source, and turned into items. An item carries its text, its
//! rows and its byte offsets, all taken from one reading of the file.

use vstd::prelude::*;
use vstd::utf8::{
    decode_utf8, decode_utf8_split, encode_utf8, encode_utf8_decode_utf8, encode_utf8_valid_utf8,
    is_char_boundary, is_char_boundary_iff_is_leading_byte,
    is_char_boundary_iff_not_is_continuation_byte, is_char_boundary_start_end_of_seq, valid_utf8,
    valid_utf8_split,
};
use crate::error::SearchError;
use crate::lang::{grammar_index, language_of, query_pattern, ProgItem, ProgLanguage};
use crate::syntax::{
    compile_query, grammar_number, grow_tree, matches_in, name_texts, number_of_name,
    pattern_fits, pattern_names, query_grammar, query_matches, query_text, source_has_error,
    tree_given, tree_grammar, tree_is_broken, tree_source,
};

verus! {

/// One structural unit found in a source file.
#[derive(Debug)]
pub struct ItemDef {
    /// The source from the start of the line on which the unit begins to
    /// the end of the unit: never from the middle of a line.
    pub definition: String,
    /// The row on which the unit begins, counted from 0.
    pub start_pos: usize,
    /// The row on which the unit ends, counted from 0.
    pub end_pos: usize,
    /// The byte offset at which `definition` begins: the start of a line.
    pub start_byte: usize,
    /// The byte offset at which `definition` ends.
    pub end_byte: usize,
    /// The file that holds the unit.
    pub filename: String,
}

/// A replacement proposed for one item: the text is not yet re-indented.
#[derive(Debug)]
pub struct ItemChange {
    /// The item to replace.
    pub before: ItemDef,
    /// The text to put in its place.
    pub after: String,
}

impl ItemDef {
    /// The rows of an item run forwards.
    pub open spec fn wf(&self) -> bool {
        self.start_pos <= self.end_pos
    }
}

impl Clone for ItemDef {
    fn clone(&self) -> (copy: Self)
        ensures
            copy == *self,
    {
        ItemDef {
            definition: self.definition.clone(),
            start_pos: self.start_pos,
            end_pos: self.end_pos,
            start_byte: self.start_byte,
            end_byte: self.end_byte,
            filename: self.filename.clone(),
        }
    }
}

impl Clone for ItemChange {
    fn clone(&self) -> (copy: Self)
        ensures
            copy == *self,
    {
        ItemChange { before: self.before.clone(), after: self.after.clone() }
    }
}

/// An item as plain values.
pub struct ItemDefView {
    pub definition: Seq<char>,
    pub start_pos: nat,
    pub end_pos: nat,
    pub start_byte: nat,
    pub end_byte: nat,
    pub filename: Seq<char>,
}

impl View for ItemDef {
    type V = ItemDefView;

    open spec fn view(&self) -> ItemDefView {
        ItemDefView {
            definition: self.definition@,
            start_pos: self.start_pos as nat,
            end_pos: self.end_pos as nat,
            start_byte: self.start_byte as nat,
            end_byte: self.end_byte as nat,
            filename: self.filename@,
        }
    }
}

/// A node of the syntax tree that a query captured: the number of the
/// capture name, and where the node lies in the source.
#[derive(Clone, Copy, Debug)]
pub struct CapturedNode {
    pub index: u32,
    pub start_byte: usize,
    pub end_byte: usize,
    pub start_row: usize,
    pub end_row: usize,
}

/// The offset at which the line that holds offset `at` begins: just behind
/// the last line feed before `at`, or 0.
pub open spec fn line_start(bytes: Seq<u8>, at: int) -> int
    decreases at,
{
    if at <= 0 {
        0
    } else if bytes[at - 1] == 0x0A {
        at
    } else {
        line_start(bytes, at - 1)
    }
}

/// Where the text of an item ends. A node may end in the middle of a line;
/// what follows it on that line is lost when the rows of the item are
/// replaced.
#[derive(Clone, Copy, Debug, PartialEq, Eq, Structural)]
pub enum ItemEnd {
    /// The text ends with the node, so that it holds the node and nothing
    /// behind it.
    AtNodeEnd,
    /// The text runs on to the end of the line on which the node ends, so
    /// that it holds whole lines.
    AtLineEnd,
}

/// The offset at which the line that holds offset `at` ends: that of the
/// first line feed at or behind `at`, or the length of the text.
pub open spec fn line_end(bytes: Seq<u8>, at: int) -> int
    decreases bytes.len() - at,
{
    if at >= bytes.len() {
        bytes.len() as int
    } else if bytes[at] == 0x0A {
        at
    } else {
        line_end(bytes, at + 1)
    }
}

/// The offset at which the text of the item of a node ends.
pub open spec fn item_end(bytes: Seq<u8>, node: CapturedNode, end: ItemEnd) -> int {
    match end {
        ItemEnd::AtNodeEnd => node.end_byte as int,
        ItemEnd::AtLineEnd => line_end(bytes, node.end_byte as int),
    }
}

/// A captured node can be found in the source when its bytes and its rows
/// run forwards and both ends of it lie between two characters.
pub open spec fn resolves(source: Seq<char>, node: CapturedNode) -> bool {
    &&& node.start_byte <= node.end_byte
    &&& node.start_row <= node.end_row
    &&& is_char_boundary(encode_utf8(source), node.start_byte as int)
    &&& is_char_boundary(encode_utf8(source), node.end_byte as int)
}

/// The item that a captured node stands for. Its text begins with the line
/// on which the node begins and ends where `end` says; its rows are those
/// of the node.
pub open spec fn located(
    source: Seq<char>,
    filename: Seq<char>,
    node: CapturedNode,
    end: ItemEnd,
) -> ItemDefView {
    ItemDefView {
        definition: located_text(source, node, end),
        start_pos: node.start_row as nat,
        end_pos: node.end_row as nat,
        start_byte: line_start(encode_utf8(source), node.start_byte as int) as nat,
        end_byte: item_end(encode_utf8(source), node, end) as nat,
        filename,
    }
}

/// The text of the item that a captured node stands for: the source from
/// the start of the line on which the node begins to the end of the item.
pub open spec fn located_text(source: Seq<char>, node: CapturedNode, end: ItemEnd) -> Seq<char> {
    let bytes = encode_utf8(source);
    decode_utf8(
        bytes.subrange(line_start(bytes, node.start_byte as int), item_end(bytes, node, end)),
    )
}

/// The start of a line is never behind the offset it was asked for.
pub proof fn lemma_line_start_bounds(bytes: Seq<u8>, at: int)
    requires
        0 <= at,
    ensures
        0 <= line_start(bytes, at) <= at,
        line_start(bytes, at) > 0 ==> bytes[line_start(bytes, at) - 1] == 0x0A,
    decreases at,
{
    if at > 0 && bytes[at - 1] != 0x0A {
        lemma_line_start_bounds(bytes, at - 1);
    }
}

/// In well-formed text a character begins just behind every line feed.
proof fn lemma_boundary_behind_line_feed(bytes: Seq<u8>, at: int)
    requires
        valid_utf8(bytes),
        0 < at <= bytes.len(),
        bytes[at - 1] == 0x0A,
    ensures
        is_char_boundary(bytes, at),
{
    if at == bytes.len() {
        is_char_boundary_start_end_of_seq(bytes);
    } else {
        is_char_boundary_iff_is_leading_byte(bytes, at - 1);
        valid_utf8_split(bytes, at - 1);
        let tail = bytes.subrange(at - 1, bytes.len() as int);
        assert(tail[0] == 0x0A);
        assert(is_char_boundary(tail, 1)) by {
            reveal_with_fuel(is_char_boundary, 2);
            reveal_with_fuel(valid_utf8, 2);
        }
        is_char_boundary_iff_not_is_continuation_byte(tail, 1);
        assert(tail[1] == bytes[at]);
        is_char_boundary_iff_not_is_continuation_byte(bytes, at);
    }
}

/// A character that begins at `at` in a text begins there in every prefix
/// of the text that ends between two characters behind `at`.
proof fn lemma_boundary_in_prefix(bytes: Seq<u8>, at: int, end: int)
    requires
        valid_utf8(bytes),
        0 <= at <= end <= bytes.len(),
        is_char_boundary(bytes, at),
        is_char_boundary(bytes, end),
    ensures
        valid_utf8(bytes.subrange(0, end)),
        is_char_boundary(bytes.subrange(0, end), at),
{
    valid_utf8_split(bytes, end);
    let head = bytes.subrange(0, end);
    if at == end {
        is_char_boundary_start_end_of_seq(head);
    } else {
        is_char_boundary_iff_not_is_continuation_byte(bytes, at);
        is_char_boundary_iff_not_is_continuation_byte(head, at);
    }
}

/// The source up to the line on which a captured node begins.
pub open spec fn text_before(source: Seq<char>, node: CapturedNode) -> Seq<char> {
    let bytes = encode_utf8(source);
    decode_utf8(bytes.subrange(0, line_start(bytes, node.start_byte as int)))
}

/// The source behind the item of a captured node.
pub open spec fn text_behind(source: Seq<char>, node: CapturedNode, end: ItemEnd) -> Seq<char> {
    let bytes = encode_utf8(source);
    decode_utf8(bytes.subrange(item_end(bytes, node, end), bytes.len() as int))
}

/// A line ends at or behind the offset it was asked for, on a line feed or
/// with the text.
pub proof fn lemma_line_end_bounds(bytes: Seq<u8>, at: int)
    requires
        0 <= at <= bytes.len(),
    ensures
        at <= line_end(bytes, at) <= bytes.len(),
        line_end(bytes, at) < bytes.len() ==> bytes[line_end(bytes, at)] == 0x0A,
    decreases bytes.len() - at,
{
    if at < bytes.len() && bytes[at] != 0x0A {
        lemma_line_end_bounds(bytes, at + 1);
    }
}

/// The item of a node that can be found ends between two characters.
proof fn lemma_item_end_is_boundary(bytes: Seq<u8>, node: CapturedNode, end: ItemEnd)
    requires
        valid_utf8(bytes),
        is_char_boundary(bytes, node.end_byte as int),
    ensures
        node.end_byte <= item_end(bytes, node, end) <= bytes.len(),
        is_char_boundary(bytes, item_end(bytes, node, end)),
{
    assert(node.end_byte <= bytes.len());
    if end == ItemEnd::AtLineEnd {
        let to = line_end(bytes, node.end_byte as int);
        lemma_line_end_bounds(bytes, node.end_byte as int);
        if to < bytes.len() {
            is_char_boundary_iff_is_leading_byte(bytes, to);
        } else {
            is_char_boundary_start_end_of_seq(bytes);
        }
    }
}

/// A single line feed, decoded.
proof fn lemma_decode_line_feed(bytes: Seq<u8>)
    requires
        bytes.len() == 1,
        bytes[0] == 0x0A,
    ensures
        valid_utf8(bytes),
        decode_utf8(bytes) == seq!['\n'],
{
    assert(0x0Au8 & 0x7F == 0x0A) by (bit_vector);
    reveal_with_fuel(valid_utf8, 2);
    reveal_with_fuel(decode_utf8, 2);
    assert(decode_utf8(bytes) =~= seq!['\n']);
}

/// The source is the text before an item's line, the text of the item, and
/// the text behind the item; and the text before it is whole lines.
pub proof fn lemma_located_parts(source: Seq<char>, node: CapturedNode, end: ItemEnd)
    requires
        resolves(source, node),
    ensures
        source == text_before(source, node) + located_text(source, node, end) + text_behind(
            source,
            node,
            end,
        ),
        text_before(source, node).len() == 0 || text_before(source, node).last() == '\n',
{
    let bytes = encode_utf8(source);
    let start = node.start_byte as int;
    let from = line_start(bytes, start);
    encode_utf8_valid_utf8(source);
    encode_utf8_decode_utf8(source);
    lemma_line_start_bounds(bytes, start);
    lemma_item_end_is_boundary(bytes, node, end);
    let to = item_end(bytes, node, end);
    if from > 0 {
        lemma_boundary_behind_line_feed(bytes, from);
    }
    lemma_boundary_in_prefix(bytes, from, to);
    let head = bytes.subrange(0, to);
    decode_utf8_split(bytes, to);
    decode_utf8_split(head, from);
    assert(head.subrange(0, from) =~= bytes.subrange(0, from));
    assert(head.subrange(from, head.len() as int) =~= bytes.subrange(from, to));
    if from > 0 {
        let lines = bytes.subrange(0, from);
        is_char_boundary_iff_is_leading_byte(bytes, from - 1);
        lemma_boundary_in_prefix(bytes, from - 1, from);
        decode_utf8_split(lines, from - 1);
        valid_utf8_split(lines, from - 1);
        let feed = lines.subrange(from - 1, lines.len() as int);
        lemma_decode_line_feed(feed);
    }
}

/// The item that a captured node stands for, or nothing where the node
/// cannot be found in the source.
pub fn locate(source: &str, filename: &str, node: &CapturedNode, end: ItemEnd) -> (item: Option<
    ItemDef,
>)
    ensures
        item is Some <==> resolves(source@, *node),
        item matches Some(found) ==> found@ == located(source@, filename@, *node, end),
{
    if node.start_byte > node.end_byte || node.start_row > node.end_row {
        return None;
    }
    if !source.is_char_boundary(node.start_byte) || !source.is_char_boundary(node.end_byte) {
        return None;
    }
    let bytes = source.as_bytes();
    proof {
        encode_utf8_valid_utf8(source@);
    }
    assert(node.end_byte <= bytes@.len());
    let mut from: usize = node.start_byte;
    while from > 0 && bytes[from - 1] != 0x0A
        invariant
            from <= node.start_byte <= bytes@.len(),
            line_start(bytes@, node.start_byte as int) == line_start(bytes@, from as int),
        decreases from,
    {
        from -= 1;
    }
    let mut to: usize = node.end_byte;
    if end == ItemEnd::AtLineEnd {
        while to < bytes.len() && bytes[to] != 0x0A
            invariant
                node.end_byte <= to <= bytes@.len(),
                line_end(bytes@, node.end_byte as int) == line_end(bytes@, to as int),
            decreases bytes@.len() - to,
        {
            to += 1;
        }
    }
    proof {
        if from > 0 {
            lemma_boundary_behind_line_feed(bytes@, from as int);
        }
        lemma_item_end_is_boundary(bytes@, *node, end);
        assert(to == item_end(bytes@, *node, end));
        lemma_boundary_in_prefix(bytes@, from as int, to as int);
    }
    let (head, _) = source.split_at(to);
    let (_, text) = head.split_at(from);
    let definition = text.to_owned();
    proof {
        assert(encode_utf8(definition@) =~= bytes@.subrange(from as int, to as int));
        encode_utf8_decode_utf8(definition@);
    }
    Some(
        ItemDef {
            definition,
            start_pos: node.start_row,
            end_pos: node.end_row,
            start_byte: from,
            end_byte: to,
            filename: filename.to_owned(),
        },
    )
}

/// The first of the captured nodes that carries the number `index`.
pub open spec fn first_capture(captures: Seq<CapturedNode>, index: u32) -> Option<CapturedNode>
    decreases captures.len(),
{
    if captures.len() == 0 {
        None
    } else if captures[0].index == index {
        Some(captures[0])
    } else {
        first_capture(captures.drop_first(), index)
    }
}

/// The nodes of one match that become items: for each capture name in
/// turn, the first node captured under its number, if there is one.
pub open spec fn picked(captures: Seq<CapturedNode>, indices: Seq<Option<u32>>) -> Seq<
    CapturedNode,
>
    decreases indices.len(),
{
    if indices.len() == 0 {
        Seq::empty()
    } else {
        let before = picked(captures, indices.drop_last());
        match indices.last() {
            Some(index) => match first_capture(captures, index) {
                Some(node) => before.push(node),
                None => before,
            },
            None => before,
        }
    }
}

/// The nodes of all matches that become items, match by match.
pub open spec fn all_picked(matches: Seq<Seq<CapturedNode>>, indices: Seq<Option<u32>>) -> Seq<
    CapturedNode,
>
    decreases matches.len(),
{
    if matches.len() == 0 {
        Seq::empty()
    } else {
        all_picked(matches.drop_last(), indices) + picked(matches.last(), indices)
    }
}

/// There is a match, and a capture name that has no number.
pub open spec fn name_without_number(
    matches: Seq<Seq<CapturedNode>>,
    indices: Seq<Option<u32>>,
) -> bool {
    matches.len() > 0 && exists|k: int| 0 <= k < indices.len() && #[trigger] indices[k] is None
}

/// The captured nodes of each match.
pub open spec fn captures_of(matches: Seq<Vec<CapturedNode>>) -> Seq<Seq<CapturedNode>> {
    matches.map_values(|captures: Vec<CapturedNode>| captures@)
}

/// The items as plain values.
pub open spec fn item_views(items: Seq<ItemDef>) -> Seq<ItemDefView> {
    items.map_values(|item: ItemDef| item@)
}

/// The items that the nodes stand for.
pub open spec fn located_all(
    source: Seq<char>,
    filename: Seq<char>,
    nodes: Seq<CapturedNode>,
    end: ItemEnd,
) -> Seq<ItemDefView> {
    nodes.map_values(|node: CapturedNode| located(source, filename, node, end))
}

/// Finds the first captured node with the number `index`.
fn find_capture(captures: &Vec<CapturedNode>, index: u32) -> (found: Option<CapturedNode>)
    ensures
        found == first_capture(captures@, index),
{
    let mut i: usize = 0;
    assert(captures@.skip(0) =~= captures@);
    while i < captures.len()
        invariant
            i <= captures.len(),
            first_capture(captures@, index) == first_capture(captures@.skip(i as int), index),
        decreases captures.len() - i,
    {
        proof {
            assert(captures@.skip(i as int)[0] == captures@[i as int]);
            assert(captures@.skip(i as int).drop_first() =~= captures@.skip(i + 1));
        }
        if captures[i].index == index {
            return Some(captures[i]);
        }
        i += 1;
    }
    None
}

/// Tells whether every capture name has a number.
fn every_name_numbered(indices: &Vec<Option<u32>>) -> (all: bool)
    ensures
        all == !exists|k: int| 0 <= k < indices@.len() && #[trigger] indices@[k] is None,
{
    let mut k: usize = 0;
    while k < indices.len()
        invariant
            k <= indices.len(),
            forall|j: int| 0 <= j < k ==> #[trigger] indices@[j] is Some,
        decreases indices.len() - k,
    {
        if indices[k].is_none() {
            return false;
        }
        k += 1;
    }
    true
}

/// What becomes of the matches of a query. Each match gives, for each
/// capture name in turn, the item of the first node captured under the
/// name's number. There are items if every name has a number, or there is
/// no match, and every such node can be found in the source; else it is a
/// `CaptureMismatch`.
pub open spec fn made_of_matches(
    found: Result<Vec<ItemDef>, SearchError>,
    source: Seq<char>,
    filename: Seq<char>,
    indices: Seq<Option<u32>>,
    matches: Seq<Seq<CapturedNode>>,
    end: ItemEnd,
) -> bool {
    let nodes = all_picked(matches, indices);
    match found {
        Ok(items) => {
            &&& !name_without_number(matches, indices)
            &&& forall|j: int| 0 <= j < nodes.len() ==> resolves(source, #[trigger] nodes[j])
            &&& item_views(items@) == located_all(source, filename, nodes, end)
        },
        Err(error) => {
            &&& error == SearchError::CaptureMismatch
            &&& (name_without_number(matches, indices) || exists|j: int|
                0 <= j < nodes.len() && !resolves(source, #[trigger] nodes[j]))
        },
    }
}

/// Turns the matches of a query into items.
///
/// `indices` holds, for each capture name of the query in turn, the number
/// under which nodes are captured for it; `matches` holds the captured
/// nodes of each match. Each match gives, for each name in turn, the item of
/// the first node captured under the name's number, with a text that ends
/// where `end` says. It is a
/// `CaptureMismatch` if there is a match and a name without a number, or if
/// one of those nodes cannot be found in the source.
pub fn items_from_matches(
    source: &str,
    filename: &str,
    indices: &Vec<Option<u32>>,
    matches: &Vec<Vec<CapturedNode>>,
    end: ItemEnd,
) -> (found: Result<Vec<ItemDef>, SearchError>)
    ensures
        made_of_matches(found, source@, filename@, indices@, captures_of(matches@), end),
{
    let ghost rows = captures_of(matches@);
    if matches.len() > 0 && !every_name_numbered(indices) {
        return Err(SearchError::CaptureMismatch);
    }
    let mut items: Vec<ItemDef> = Vec::new();
    let ghost mut nodes: Seq<CapturedNode> = Seq::empty();
    let mut m: usize = 0;
    assert(rows.take(0) =~= Seq::<Seq<CapturedNode>>::empty());
    assert(item_views(items@) =~= located_all(source@, filename@, nodes, end));
    while m < matches.len()
        invariant
            m <= matches.len(),
            rows == captures_of(matches@),
            nodes == all_picked(rows.take(m as int), indices@),
            forall|j: int| 0 <= j < nodes.len() ==> resolves(source@, #[trigger] nodes[j]),
            item_views(items@) == located_all(source@, filename@, nodes, end),
        decreases matches.len() - m,
    {
        let captures = &matches[m];
        let ghost before = nodes;
        let mut k: usize = 0;
        proof {
            assert(indices@.take(0) =~= Seq::<Option<u32>>::empty());
            assert(before + Seq::<CapturedNode>::empty() =~= before);
            assert(rows.take(m + 1).last() == captures@);
            assert(rows.take(m + 1).drop_last() =~= rows.take(m as int));
        }
        while k < indices.len()
            invariant
                k <= indices.len(),
                m < matches.len(),
                rows == captures_of(matches@),
                captures@ == rows[m as int],
                before == all_picked(rows.take(m as int), indices@),
                nodes == before + picked(captures@, indices@.take(k as int)),
                forall|j: int| 0 <= j < nodes.len() ==> resolves(source@, #[trigger] nodes[j]),
                item_views(items@) == located_all(source@, filename@, nodes, end),
            decreases indices.len() - k,
        {
            proof {
                assert(indices@.take(k + 1).last() == indices@[k as int]);
                assert(indices@.take(k + 1).drop_last() =~= indices@.take(k as int));
            }
            if let Some(index) = indices[k] {
                if let Some(node) = find_capture(captures, index) {
                    let ghost grown = nodes.push(node);
                    proof {
                        assert(grown =~= before + picked(captures@, indices@.take(k + 1)));
                    }
                    match locate(source, filename, &node, end) {
                        Some(item) => {
                            let ghost views = item_views(items@);
                            items.push(item);
                            proof {
                                nodes = grown;
                                assert(item_views(items@) =~= views.push(item@));
                                assert(located_all(source@, filename@, nodes, end) =~= views.push(
                                    item@,
                                ));
                            }
                        },
                        None => {
                            proof {
                                lemma_picked_grows(rows, indices@, m as int, k + 1);
                                let at = grown.len() - 1;
                                let all = all_picked(rows, indices@);
                                assert(all[at] == node);
                            }
                            return Err(SearchError::CaptureMismatch);
                        },
                    }
                }
            }
            k += 1;
        }
        proof {
            assert(indices@.take(k as int) =~= indices@);
        }
        m += 1;
    }
    assert(rows.take(m as int) =~= rows);
    Ok(items)
}

/// What becomes of the parser's answer to a grammar: a grammar that the
/// parser refuses is a `Parse` error.
pub fn grammar_taken(set: Result<(), tree_sitter::LanguageError>) -> (taken: Result<
    (),
    SearchError,
>)
    ensures
        taken == match set {
            Ok(_) => Ok::<(), SearchError>(()),
            Err(_) => Err::<(), SearchError>(SearchError::Parse),
        },
{
    match set {
        Ok(_) => Ok(()),
        Err(_) => Err(SearchError::Parse),
    }
}

/// What becomes of the parser's answer to a source: the tree with the
/// grammar that gave it, or a `Parse` error where there is no tree.
pub fn tree_or_error(language: tree_sitter::Language, tree: Option<tree_sitter::Tree>) -> (parsed:
    Result<(tree_sitter::Language, tree_sitter::Tree), SearchError>)
    ensures
        parsed == match tree {
            Some(grown) => Ok::<(tree_sitter::Language, tree_sitter::Tree), SearchError>(
                (language, grown),
            ),
            None => Err::<(tree_sitter::Language, tree_sitter::Tree), SearchError>(
                SearchError::Parse,
            ),
        },
{
    match tree {
        Some(grown) => Ok((language, grown)),
        None => Err(SearchError::Parse),
    }
}

/// What becomes of the answer to a query pattern: the query, or a
/// `Configuration` error where the pattern does not fit the grammar.
pub fn query_or_error(query: Result<tree_sitter::Query, tree_sitter::QueryError>) -> (compiled:
    Result<tree_sitter::Query, SearchError>)
    ensures
        compiled == match query {
            Ok(ready) => Ok::<tree_sitter::Query, SearchError>(ready),
            Err(_) => Err::<tree_sitter::Query, SearchError>(SearchError::Configuration),
        },
{
    match query {
        Ok(ready) => Ok(ready),
        Err(_) => Err(SearchError::Configuration),
    }
}

/// A source can be parsed in a language when the grammar of the language
/// gives a tree for it and the source has no syntax error.
pub open spec fn can_be_parsed(language: ProgLanguage, source: Seq<char>) -> bool {
    tree_given(grammar_index(language), source) && !source_has_error(
        grammar_index(language),
        source,
    )
}

/// Parses `source_code` with the grammar of the language of `item`.
///
/// A new parser is given the grammar, then the whole source. There is a
/// result exactly when the source can be parsed: the grammar and the tree
/// of the source. Else it is a `Parse` error: where the parser does not
/// take the grammar, where it gives no tree, and where the source has a
/// syntax error.
pub fn parse_code(source_code: &str, item: &ProgItem) -> (parsed: Result<
    (tree_sitter::Language, tree_sitter::Tree),
    SearchError,
>)
    ensures
        parsed is Ok <==> can_be_parsed(language_of(*item), source_code@),
        parsed matches Err(error) ==> error == SearchError::Parse,
        parsed matches Ok(pair) ==> {
            &&& grammar_number(pair.0) == grammar_index(language_of(*item))
            &&& tree_grammar(pair.1) == grammar_index(language_of(*item))
            &&& tree_source(pair.1) == source_code@
        },
{
    let language = ProgLanguage::from(*item).tree_sitter_language();
    let (set, tree) = grow_tree(language, source_code);
    match grammar_taken(set) {
        Ok(_) => {},
        Err(error) => {
            return Err(error);
        },
    }
    let (language, tree) = match tree_or_error(language, tree) {
        Ok(pair) => pair,
        Err(error) => {
            return Err(error);
        },
    };
    if tree_is_broken(&tree) {
        return Err(SearchError::Parse);
    }
    Ok((language, tree))
}

/// An item lies in a source when it is the item of a node that can be
/// found there.
pub open spec fn lies_in(item: ItemDefView, source: Seq<char>, filename: Seq<char>, end: ItemEnd)
    -> bool {
    exists|node: CapturedNode|
        resolves(source, node) && item == #[trigger] located(source, filename, node, end)
}

/// What the search of one source can come to: a `Parse` error, a
/// `Configuration` error, or what is made of the matches of the query,
/// whatever capture names with their numbers and whatever matches with
/// their captured nodes there are: see `made_of_matches`.
pub open spec fn found_in_source(
    found: Result<Vec<ItemDef>, SearchError>,
    source: Seq<char>,
    filename: Seq<char>,
    end: ItemEnd,
) -> bool {
    ||| found == Err::<Vec<ItemDef>, SearchError>(SearchError::Parse)
    ||| found == Err::<Vec<ItemDef>, SearchError>(SearchError::Configuration)
    ||| exists|indices: Seq<Option<u32>>, matches: Seq<Seq<CapturedNode>>| #[trigger]
        made_of_matches(found, source, filename, indices, matches, end)
}

/// The numbers of the capture names, name by name.
pub open spec fn numbers_of(names: Seq<Seq<char>>) -> Seq<Option<u32>> {
    Seq::new(names.len(), |k: int| number_of_name(names, names[k]))
}

/// What the search of one source for the items of a pattern comes to. It
/// is a `Parse` error where the source cannot be parsed in the language,
/// and else a `Configuration` error where the pattern does not fit the
/// grammar of the language. Else it is what is made of the matches of the
/// pattern in the source, with the capture names of the pattern by their
/// numbers: see `made_of_matches`.
pub open spec fn search_result(
    found: Result<Vec<ItemDef>, SearchError>,
    language: ProgLanguage,
    pattern: Seq<char>,
    source: Seq<char>,
    filename: Seq<char>,
    end: ItemEnd,
) -> bool {
    let grammar = grammar_index(language);
    if !can_be_parsed(language, source) {
        found == Err::<Vec<ItemDef>, SearchError>(SearchError::Parse)
    } else if !pattern_fits(grammar, pattern) {
        found == Err::<Vec<ItemDef>, SearchError>(SearchError::Configuration)
    } else {
        made_of_matches(
            found,
            source,
            filename,
            numbers_of(pattern_names(grammar, pattern)),
            matches_in(grammar, pattern, grammar, source, source),
            end,
        )
    }
}

/// Finds the items of one kind in the source of one file.
///
/// The source is parsed with the grammar of the item's language, as
/// `parse_code` does it. The query pattern of the item's kind is compiled
/// for that grammar and run on the tree; what it captures becomes items as
/// `items_from_matches` says, with texts that end where `end` says. The
/// result is stated over what the parser library finds: see
/// `search_result`. Every item that comes back lies in the source: its
/// text is a slice of the source that begins at the start of a line, and
/// its rows run forwards. It is a `Parse` error if the source cannot be
/// parsed, a `Configuration` error if the pattern does not fit the
/// grammar, and a `CaptureMismatch` if a capture cannot be found in the
/// source.
pub fn extract_items(source_code: &str, filename: &str, item: &ProgItem, end: ItemEnd) -> (found:
    Result<Vec<ItemDef>, SearchError>)
    ensures
        search_result(
            found,
            language_of(*item),
            query_pattern(*item),
            source_code@,
            filename@,
            end,
        ),
        found_in_source(found, source_code@, filename@, end),
        found matches Ok(items) ==> forall|j: int|
            0 <= j < items@.len() ==> lies_in(#[trigger] items@[j]@, source_code@, filename@, end),
        found matches Err(error) ==> error != SearchError::FileSystem,
{
    let ghost grammar = grammar_index(language_of(*item));
    let (language, tree) = match parse_code(source_code, item) {
        Ok(parsed) => parsed,
        Err(error) => {
            return Err(error);
        },
    };
    let pattern = item.to_sexpr();
    assert(pattern@ == query_pattern(*item));
    let query = match query_or_error(compile_query(language, pattern.as_str())) {
        Ok(query) => query,
        Err(error) => {
            return Err(error);
        },
    };
    let names = query.capture_names();
    let ghost texts = name_texts(names@);
    let mut indices: Vec<Option<u32>> = Vec::new();
    let mut k: usize = 0;
    while k < names.len()
        invariant
            k <= names.len(),
            texts == name_texts(names@),
            texts == pattern_names(query_grammar(query), query_text(query)),
            indices@.len() == k,
            forall|j: int| 0 <= j < k ==> #[trigger] indices@[j] == number_of_name(texts, texts[j]),
        decreases names.len() - k,
    {
        let index = query.capture_index_for_name(names[k].as_str());
        assert(texts[k as int] == names@[k as int]@);
        indices.push(index);
        k += 1;
    }
    assert(indices@ =~= numbers_of(pattern_names(grammar, query_pattern(*item))));
    let matches = query_matches(&query, &tree, source_code);
    let found = items_from_matches(source_code, filename, &indices, &matches, end);
    proof {
        assert(made_of_matches(
            found,
            source_code@,
            filename@,
            indices@,
            captures_of(matches@),
            end,
        ));
        if let Ok(items) = &found {
            let nodes = all_picked(captures_of(matches@), indices@);
            let views = located_all(source_code@, filename@, nodes, end);
            assert(item_views(items@).len() == items@.len());
            assert(views.len() == nodes.len());
            assert forall|j: int| 0 <= j < items@.len() implies lies_in(
                #[trigger] items@[j]@,
                source_code@,
                filename@,
                end,
            ) by {
                assert(item_views(items@)[j] == items@[j]@);
                assert(views[j] == located(source_code@, filename@, nodes[j], end));
                assert(resolves(source_code@, nodes[j]));
            }
        }
    }
    found
}

/// Finds the items of one kind in the source of one file, each with the
/// text from the start of its first line to the end of its node: see
/// `extract_items`. What stands behind an item on its last line is no part
/// of its text.
pub fn extract_sexpr_from_string(source_code: &str, filename: &str, item: &ProgItem) -> (found:
    Result<Vec<ItemDef>, SearchError>)
    ensures
        search_result(
            found,
            language_of(*item),
            query_pattern(*item),
            source_code@,
            filename@,
            ItemEnd::AtNodeEnd,
        ),
        found_in_source(found, source_code@, filename@, ItemEnd::AtNodeEnd),
        found matches Ok(items) ==> forall|j: int|
            0 <= j < items@.len() ==> lies_in(
                #[trigger] items@[j]@,
                source_code@,
                filename@,
                ItemEnd::AtNodeEnd,
            ),
        found matches Err(error) ==> error != SearchError::FileSystem,
{
    extract_items(source_code, filename, item, ItemEnd::AtNodeEnd)
}

/// What was picked up to a place in a match stays where it is when the
/// rest is picked.
proof fn lemma_picked_grows(
    matches: Seq<Seq<CapturedNode>>,
    indices: Seq<Option<u32>>,
    m: int,
    k: int,
)
    requires
        0 <= m < matches.len(),
        0 <= k <= indices.len(),
    ensures
        ({
            let part = all_picked(matches.take(m), indices) + picked(matches[m], indices.take(k));
            let all = all_picked(matches, indices);
            &&& part.len() <= all.len()
            &&& forall|j: int| 0 <= j < part.len() ==> part[j] == all[j]
        }),
    decreases matches.len() - m, indices.len() - k,
{
    let part = all_picked(matches.take(m), indices) + picked(matches[m], indices.take(k));
    if k < indices.len() {
        let next = all_picked(matches.take(m), indices) + picked(matches[m], indices.take(k + 1));
        assert(indices.take(k + 1).drop_last() =~= indices.take(k));
        lemma_picked_grows(matches, indices, m, k + 1);
        assert(forall|j: int| 0 <= j < part.len() ==> part[j] == next[j]);
    } else {
        assert(indices.take(k) =~= indices);
        assert(matches.take(m + 1).drop_last() =~= matches.take(m));
        assert(matches.take(m + 1).last() == matches[m]);
        assert(part == all_picked(matches.take(m + 1), indices));
        if m + 1 < matches.len() {
            assert(indices.take(0) =~= Seq::<Option<u32>>::empty());
            assert(part + picked(matches[m + 1], indices.take(0)) =~= part);
            lemma_picked_grows(matches, indices, m + 1, 0);
        } else {
            assert(matches.take(m + 1) =~= matches);
        }
    }
}

} // verus!
