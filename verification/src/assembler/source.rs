//! From source text to image: the parser, then the two passes.

use crate::assembler::passes::Assembler;
use crate::error::{Error, ErrorKind, Position};
use crate::instructions::{items_of, InstructionOrLabel, Item};
use crate::parser::grammar::{
    after_trivia, all, error_at, lemma_all_unfolds, lemma_single_after_trivia, lemma_single_at_end,
    lemma_trivia_bounds, position_at, single,
};
use crate::parser::reader::{advanced, agrees, moved, Parser};
use vstd::prelude::*;

verus! {

/// The errors among the first `count` items that the parser read, in order.
pub open spec fn errors_in(read: Seq<(Result<Item, Error>, int)>, count: nat) -> Seq<Error>
    decreases count,
{
    if count == 0 {
        Seq::empty()
    } else {
        match read[count - 1].0 {
            Err(error) => errors_in(read, (count - 1) as nat).push(error),
            Ok(_) => errors_in(read, (count - 1) as nat),
        }
    }
}

/// The items that the parser read, where it met no error.
pub open spec fn items_in(read: Seq<(Result<Item, Error>, int)>) -> Seq<Item> {
    Seq::new(
        read.len(),
        |i: int|
            match read[i].0 {
                Ok(item) => item,
                Err(_) => Item::EOF,
            },
    )
}

/// The place of the last byte of the item that begins at `from`.
#[verifier::opaque]
pub open spec fn item_end(source: Seq<u8>, from: int) -> int {
    if single(source, from).cursor > from {
        single(source, from).cursor - 1
    } else {
        from
    }
}

/// The error of the assembler about the item that begins at `from`: it
/// spans the item.
pub open spec fn semantic_error(source: Seq<u8>, kind: ErrorKind, from: int) -> Error {
    error_at(source, kind, from, item_end(source, from))
}

/// What a source text assembles to. Where the parser meets errors, all of
/// them, in the order of the source. Else the image of the items, or the
/// one error of the two passes, which spans its item.
pub open spec fn assemble_source(source: Seq<u8>) -> Result<Seq<u8>, Seq<Error>> {
    let read = all(source, 0);
    let errors = errors_in(read, read.len());
    if errors.len() > 0 {
        Err(errors)
    } else {
        match crate::assembler::model::assemble(items_in(read)) {
            Ok(image) => Ok(image),
            Err(error) => Err(
                seq![
                    semantic_error(source, error.kind, read[error.token as int].1),
                ],
            ),
        }
    }
}

/// Reads the next item of the source, and the places of its first and of
/// its last byte.
fn read_item(parser: &mut Parser) -> (read: (Result<InstructionOrLabel, Error>, Position, Position))
    requires
        old(parser).wf(),
    ensures
        final(parser).wf(),
        moved(old(parser)@, final(parser)@),
        advanced(old(parser)@, final(parser)@),
        final(parser)@.cursor == single(old(parser)@.source, old(parser)@.cursor).cursor,
        agrees(read.0, single(old(parser)@.source, old(parser)@.cursor).value),
        read.1 == position_at(
            old(parser)@.source,
            after_trivia(old(parser)@.source, old(parser)@.cursor),
        ),
        read.2 == position_at(
            old(parser)@.source,
            item_end(
                old(parser)@.source,
                after_trivia(old(parser)@.source, old(parser)@.cursor),
            ),
        ),
{
    let ghost before = parser@;
    proof {
        parser.lemma_within();
        lemma_trivia_bounds(before.source, before.cursor);
        lemma_single_after_trivia(before.source, before.cursor);
    }
    parser.skip_trivia();
    let start = parser.offset();
    let from = parser.position();
    let item = parser.parse_single();
    proof {
        lemma_item_end(
            before.source,
            after_trivia(before.source, before.cursor),
            parser@.cursor,
        );
    }
    let to = if parser.offset() > start {
        parser.previous()
    } else {
        from
    };
    (item, from, to)
}

/// Assembles a source text into a flat byte image, or says what is wrong
/// with it.
pub fn assemble(source: &[u8]) -> (image: Result<Vec<u8>, Vec<Error>>)
    requires
        source.len() < usize::MAX,
    ensures
        match assemble_source(source@) {
            Ok(bytes) => image matches Ok(out) && out@ == bytes,
            Err(errors) => image matches Err(found) && found@ == errors,
        },
{
    let ghost expected = all(source@, 0);
    let ghost mut seen: Seq<(Result<Item, Error>, int)> = Seq::empty();
    let mut parser = Parser::new(source);
    let mut items: Vec<InstructionOrLabel> = Vec::new();
    let mut starts: Vec<Position> = Vec::new();
    let mut ends: Vec<Position> = Vec::new();
    let mut errors: Vec<Error> = Vec::new();
    loop
        invariant_except_break
            expected == seen + all(source@, parser@.cursor),
        invariant
            parser.wf(),
            parser@.source == source@,
            0 <= parser@.cursor <= source@.len(),
            errors@ == errors_in(seen, seen.len()),
            errors@.len() == 0 ==> collected(source@, seen, items@, starts@, ends@),
        ensures
            expected == seen,
        decreases source@.len() - parser@.cursor,
    {
        if parser.done() {
            let here = parser.position();
            proof {
                let last = (Ok::<Item, Error>(Item::EOF), parser@.cursor);
                lemma_single_at_end(source@, parser@.cursor);
                lemma_item_end(source@, parser@.cursor, parser@.cursor);
                lemma_errors_push(seen, last);
                if errors@.len() == 0 {
                    lemma_collected_push(
                        source@,
                        seen,
                        items@,
                        starts@,
                        ends@,
                        last.1,
                        InstructionOrLabel::EOF,
                    );
                }
                assert(expected =~= seen.push(last));
                seen = seen.push(last);
            }
            items.push(InstructionOrLabel::EOF);
            starts.push(here);
            ends.push(here);
            break ;
        }
        let ghost before = parser@;
        let (item, from, to) = read_item(&mut parser);
        proof {
            let first = (single(source@, before.cursor).value, after_trivia(source@, before.cursor));
            let after = all(source@, parser@.cursor);
            lemma_all_unfolds(source@, before.cursor);
            assert(seen + all(source@, before.cursor) =~= seen.push(first) + after);
            lemma_errors_push(seen, first);
            seen = seen.push(first);
        }
        match item {
            Ok(item) => {
                proof {
                    if errors@.len() == 0 {
                        lemma_collected_push(
                            source@,
                            seen.drop_last(),
                            items@,
                            starts@,
                            ends@,
                            seen.last().1,
                            item,
                        );
                        assert(seen.drop_last().push(seen.last()) =~= seen);
                    }
                }
                items.push(item);
                starts.push(from);
                ends.push(to);
            },
            Err(error) => {
                errors.push(error);
            },
        }
    }
    if errors.len() > 0 {
        return Err(errors);
    }
    proof {
        lemma_collected_items(source@, expected, items@, starts@, ends@);
    }
    let assembler = Assembler::new(items.as_slice());
    match assembler.assemble() {
        Ok(image) => Ok(image),
        Err(error) => {
            proof {
                crate::assembler::laws::lemma_error_names_an_item(items_of(items@));
                lemma_collected_start(
                    source@,
                    expected,
                    items@,
                    starts@,
                    ends@,
                    error.token as int,
                );
            }
            let from = starts[error.token];
            let to = ends[error.token];
            let mut found: Vec<Error> = Vec::new();
            found.push(Error { kind: error.kind, from, to });
            assert(found@ =~= seq![
                semantic_error(source@, error.kind, expected[error.token as int].1),
            ]);
            Err(found)
        },
    }
}

/// The last byte of an item is the byte before the place where the parser
/// stops after it.
pub proof fn lemma_item_end(source: Seq<u8>, from: int, cursor: int)
    requires
        single(source, from).cursor == cursor,
    ensures
        item_end(source, from) == (if cursor > from {
            cursor - 1
        } else {
            from
        }),
{
    reveal(item_end);
}

/// Whether the items and the places collected so far are those that the
/// parser read without error.
pub open spec fn collected(
    source: Seq<u8>,
    seen: Seq<(Result<Item, Error>, int)>,
    items: Seq<InstructionOrLabel>,
    starts: Seq<Position>,
    ends: Seq<Position>,
) -> bool {
    &&& items.len() == seen.len()
    &&& starts.len() == seen.len()
    &&& ends.len() == seen.len()
    &&& forall|i: int|
        0 <= i < seen.len() ==> (#[trigger] seen[i]).0 == Ok::<Item, Error>(items[i]@)
            && starts[i] == position_at(source, seen[i].1) && ends[i] == position_at(
            source,
            item_end(source, seen[i].1),
        )
}

/// One more item read without error is one more item collected.
pub proof fn lemma_collected_push(
    source: Seq<u8>,
    seen: Seq<(Result<Item, Error>, int)>,
    items: Seq<InstructionOrLabel>,
    starts: Seq<Position>,
    ends: Seq<Position>,
    from: int,
    item: InstructionOrLabel,
)
    requires
        collected(source, seen, items, starts, ends),
    ensures
        collected(
            source,
            seen.push((Ok(item@), from)),
            items.push(item),
            starts.push(position_at(source, from)),
            ends.push(position_at(source, item_end(source, from))),
        ),
{
    let longer = seen.push((Ok(item@), from));
    let longer_starts = starts.push(position_at(source, from));
    let longer_ends = ends.push(position_at(source, item_end(source, from)));
    assert forall|i: int| 0 <= i < longer.len() implies (#[trigger] longer[i]).0 == Ok::<
        Item,
        Error,
    >(items.push(item)[i]@) && longer_starts[i] == position_at(source, longer[i].1)
        && longer_ends[i] == position_at(source, item_end(source, longer[i].1)) by {
        if i < seen.len() {
            assert(longer[i] == seen[i]);
        }
    }
}

/// The items collected are the items that the parser read.
pub proof fn lemma_collected_items(
    source: Seq<u8>,
    seen: Seq<(Result<Item, Error>, int)>,
    items: Seq<InstructionOrLabel>,
    starts: Seq<Position>,
    ends: Seq<Position>,
)
    requires
        collected(source, seen, items, starts, ends),
    ensures
        items_of(items) == items_in(seen),
{
    assert forall|i: int| 0 <= i < seen.len() implies items_of(items)[i] == items_in(seen)[i] by {
        assert(seen[i].0 == Ok::<Item, Error>(items[i]@));
    }
    assert(items_of(items) =~= items_in(seen));
}

/// The places collected for an item are those where the item begins and ends.
pub proof fn lemma_collected_start(
    source: Seq<u8>,
    seen: Seq<(Result<Item, Error>, int)>,
    items: Seq<InstructionOrLabel>,
    starts: Seq<Position>,
    ends: Seq<Position>,
    index: int,
)
    requires
        collected(source, seen, items, starts, ends),
        0 <= index < seen.len(),
    ensures
        starts[index] == position_at(source, seen[index].1),
        ends[index] == position_at(source, item_end(source, seen[index].1)),
{
    assert(seen[index].0 == Ok::<Item, Error>(items[index]@));
}

/// The errors of a run of items with one more item are the errors of the
/// run, and the error of the item if it is one.
pub proof fn lemma_errors_push(read: Seq<(Result<Item, Error>, int)>, next: (Result<Item, Error>, int))
    ensures
        errors_in(read.push(next), read.len() + 1) == match next.0 {
            Err(error) => errors_in(read, read.len()).push(error),
            Ok(_) => errors_in(read, read.len()),
        },
{
    lemma_errors_prefix(read, next, read.len());
}

/// The errors among the first items of a run do not depend on what follows them.
pub proof fn lemma_errors_prefix(
    read: Seq<(Result<Item, Error>, int)>,
    next: (Result<Item, Error>, int),
    count: nat,
)
    requires
        count <= read.len(),
    ensures
        errors_in(read.push(next), count) == errors_in(read, count),
    decreases count,
{
    if count > 0 {
        lemma_errors_prefix(read, next, (count - 1) as nat);
    }
}

} // verus!
