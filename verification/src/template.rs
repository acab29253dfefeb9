//! Path templates as pieces: what substitution does to a template that is
//! made of plain text and of placeholders.

use crate::binder::BoundValueView;
use crate::http::{placeholder, plain_path_after, plainly_substituted};
use crate::openapi::ParameterLocation;
use crate::text::{matches_at, replace_all, replace_from};
use vstd::prelude::*;

verus! {

/// One piece of a path template.
pub enum Piece {
    /// Plain text.
    Text(Seq<char>),
    /// The placeholder of the parameter of this name.
    Token(Seq<char>),
}

/// Whether `text` holds no brace.
pub open spec fn brace_free(text: Seq<char>) -> bool {
    forall|i: int| 0 <= i < text.len() ==> #[trigger] text[i] != '{' && text[i] != '}'
}

/// The text that a piece stands for.
pub open spec fn piece_text(piece: Piece) -> Seq<char> {
    match piece {
        Piece::Text(text) => text,
        Piece::Token(name) => placeholder(name),
    }
}

/// Whether a piece is well formed: its text, or its name, holds no brace.
pub open spec fn piece_ok(piece: Piece) -> bool {
    match piece {
        Piece::Text(text) => brace_free(text),
        Piece::Token(name) => brace_free(name),
    }
}

/// Whether all pieces are well formed.
pub open spec fn pieces_ok(pieces: Seq<Piece>) -> bool {
    forall|i: int| 0 <= i < pieces.len() ==> piece_ok(#[trigger] pieces[i])
}

/// The template that the pieces make, one after the other.
pub open spec fn flatten(pieces: Seq<Piece>) -> Seq<char>
    decreases pieces.len(),
{
    if pieces.len() == 0 {
        Seq::empty()
    } else {
        piece_text(pieces[0]) + flatten(pieces.drop_first())
    }
}

/// A piece after one bound value was applied: the placeholder of a bound
/// path value becomes the value, as text; every other piece stays.
pub open spec fn piece_after_one(piece: Piece, value: BoundValueView) -> Piece {
    if value.location == ParameterLocation::Path && piece == Piece::Token(value.name) {
        Piece::Text(value.value)
    } else {
        piece
    }
}

/// A piece after the bound values were applied in their order: a
/// placeholder becomes the value of the first bound path value of its name.
pub open spec fn piece_after(piece: Piece, bound: Seq<BoundValueView>) -> Piece
    decreases bound.len(),
{
    if bound.len() == 0 {
        piece
    } else {
        piece_after_one(piece_after(piece, bound.drop_last()), bound.last())
    }
}

/// The pieces after the bound values were applied.
pub open spec fn pieces_after(pieces: Seq<Piece>, bound: Seq<BoundValueView>) -> Seq<Piece> {
    pieces.map_values(|piece: Piece| piece_after(piece, bound))
}

/// Whether the names and values of the bound path values hold no brace.
pub open spec fn path_values_brace_free(bound: Seq<BoundValueView>) -> bool {
    forall|j: int|
        0 <= j < bound.len() && (#[trigger] bound[j]).location == ParameterLocation::Path
            ==> brace_free(bound[j].name) && brace_free(bound[j].value)
}

/// Whether some bound path value has the given name.
pub open spec fn is_bound(name: Seq<char>, bound: Seq<BoundValueView>) -> bool {
    exists|j: int|
        0 <= j < bound.len() && (#[trigger] bound[j]).location == ParameterLocation::Path
            && bound[j].name == name
}

/// Whether every placeholder among the pieces names a bound path value.
pub open spec fn placeholders_bound(pieces: Seq<Piece>, bound: Seq<BoundValueView>) -> bool {
    forall|i: int|
        0 <= i < pieces.len() ==> ((#[trigger] pieces[i]) matches Piece::Token(name) ==> is_bound(
            name,
            bound,
        ))
}

/// Replacement from a position on looks at the text from that position on
/// only.
proof fn lemma_replace_shift(
    text: Seq<char>,
    from: int,
    j: int,
    pattern: Seq<char>,
    with: Seq<char>,
)
    requires
        0 <= from <= text.len(),
        0 <= j,
    ensures
        replace_from(text, from + j, pattern, with) == replace_from(
            text.skip(from),
            j,
            pattern,
            with,
        ),
    decreases text.len() - from - j,
{
    let tail = text.skip(from);
    if from + j < text.len() {
        assert(tail[j] == text[from + j]);
        if from + j + pattern.len() <= text.len() {
            assert(text.subrange(from + j, from + j + pattern.len()) == tail.subrange(
                j,
                j + pattern.len(),
            ));
        }
        assert(matches_at(text, from + j, pattern) == matches_at(tail, j, pattern));
        if pattern.len() > 0 && matches_at(text, from + j, pattern) {
            lemma_replace_shift(text, from, j + pattern.len(), pattern, with);
        } else {
            lemma_replace_shift(text, from, j + 1, pattern, with);
        }
    }
}

/// Replacement of a pattern that begins with an opening brace copies a run
/// of text that holds none.
proof fn lemma_replace_copies_run(
    text: Seq<char>,
    from: int,
    count: int,
    pattern: Seq<char>,
    with: Seq<char>,
)
    requires
        0 <= from,
        0 <= count,
        from + count <= text.len(),
        pattern.len() > 0,
        pattern[0] == '{',
        forall|i: int| from <= i < from + count ==> text[i] != '{',
    ensures
        replace_from(text, from, pattern, with) == text.subrange(from, from + count) + replace_from(
            text,
            from + count,
            pattern,
            with,
        ),
    decreases count,
{
    if count == 0 {
        assert(text.subrange(from, from) + replace_from(text, from, pattern, with) == replace_from(
            text,
            from,
            pattern,
            with,
        ));
    } else {
        if matches_at(text, from, pattern) {
            assert(text.subrange(from, from + pattern.len())[0] == pattern[0]);
        }
        lemma_replace_copies_run(text, from + 1, count - 1, pattern, with);
        assert(seq![text[from]] + text.subrange(from + 1, from + count) == text.subrange(
            from,
            from + count,
        ));
        assert(seq![text[from]] + (text.subrange(from + 1, from + count) + replace_from(
            text,
            from + count,
            pattern,
            with,
        )) == text.subrange(from, from + count) + replace_from(
            text,
            from + count,
            pattern,
            with,
        ));
    }
}

/// What replacement makes of one well-formed piece followed by more text:
/// the placeholder that is looked for becomes the value, every other piece
/// stays, and replacement goes on behind it.
proof fn lemma_replace_passes_piece(
    piece: Piece,
    rest: Seq<char>,
    name: Seq<char>,
    with: Seq<char>,
)
    requires
        piece_ok(piece),
        brace_free(name),
    ensures
        replace_all(piece_text(piece) + rest, placeholder(name), with) == (if piece == Piece::Token(
            name,
        ) {
            with
        } else {
            piece_text(piece)
        }) + replace_all(rest, placeholder(name), with),
{
    let pattern = placeholder(name);
    let head = piece_text(piece);
    let text = head + rest;
    assert(pattern[0] == '{');
    assert(text.skip(head.len() as int) == rest);
    lemma_replace_shift(text, head.len() as int, 0, pattern, with);
    match piece {
        Piece::Text(plain) => {
            assert forall|i: int| 0 <= i < head.len() implies text[i] != '{' by {
                assert(text[i] == plain[i]);
            }
            lemma_replace_copies_run(text, 0, head.len() as int, pattern, with);
            assert(text.subrange(0, head.len() as int) == head);
        },
        Piece::Token(own) => {
            if own == name {
                assert(text.subrange(0, pattern.len() as int) == pattern);
                assert(matches_at(text, 0, pattern));
            } else {
                assert(!matches_at(text, 0, pattern)) by {
                    if matches_at(text, 0, pattern) {
                        let found = text.subrange(0, pattern.len() as int);
                        let n = name.len() as int;
                        let o = own.len() as int;
                        if n < o {
                            assert(found[n + 1] == pattern[n + 1]);
                            assert(text[n + 1] == own[n]);
                        } else if n > o {
                            assert(found[o + 1] == pattern[o + 1]);
                            assert(pattern[o + 1] == name[o]);
                            assert(text[o + 1] == '}');
                        } else {
                            assert forall|i: int| 0 <= i < own.len() implies own[i] == name[i] by {
                                assert(found[i + 1] == pattern[i + 1]);
                                assert(text[i + 1] == own[i]);
                                assert(pattern[i + 1] == name[i]);
                            }
                            assert(own =~= name);
                        }
                    }
                }
                assert forall|i: int| 1 <= i < head.len() implies text[i] != '{' by {
                    if i <= own.len() {
                        assert(text[i] == own[i - 1]);
                    } else {
                        assert(text[i] == '}');
                    }
                }
                lemma_replace_copies_run(text, 1, head.len() - 1, pattern, with);
                assert(seq![text[0]] + text.subrange(1, head.len() as int) == head);
                assert(seq![text[0]] + (text.subrange(1, head.len() as int) + replace_from(
                    text,
                    head.len() as int,
                    pattern,
                    with,
                )) == head + replace_from(text, head.len() as int, pattern, with));
            }
        },
    }
}

/// Applying one bound value to the template of well-formed pieces applies
/// it to each piece.
proof fn lemma_one_value_by_pieces(pieces: Seq<Piece>, value: BoundValueView)
    requires
        pieces_ok(pieces),
        value.location == ParameterLocation::Path ==> brace_free(value.name),
    ensures
        plain_path_after(flatten(pieces), value) == flatten(
            pieces.map_values(|piece: Piece| piece_after_one(piece, value)),
        ),
    decreases pieces.len(),
{
    let after = pieces.map_values(|piece: Piece| piece_after_one(piece, value));
    if pieces.len() == 0 {
        assert(replace_all(flatten(pieces), placeholder(value.name), value.value) == flatten(
            pieces,
        ));
    } else {
        let rest = pieces.drop_first();
        assert(pieces_ok(rest)) by {
            assert forall|i: int| 0 <= i < rest.len() implies piece_ok(#[trigger] rest[i]) by {
                assert(rest[i] == pieces[i + 1]);
            }
        }
        lemma_one_value_by_pieces(rest, value);
        assert(after.drop_first() == rest.map_values(
            |piece: Piece| piece_after_one(piece, value),
        ));
        assert(after[0] == piece_after_one(pieces[0], value));
        if value.location == ParameterLocation::Path {
            lemma_replace_passes_piece(pieces[0], flatten(rest), value.name, value.value);
        } else {
            assert(after == pieces);
        }
    }
}

/// The placeholders of bound path values are filled; and values without
/// braces leave well-formed pieces.
proof fn lemma_piece_after(piece: Piece, bound: Seq<BoundValueView>)
    requires
        piece_ok(piece),
        path_values_brace_free(bound),
    ensures
        piece_ok(piece_after(piece, bound)),
        piece matches Piece::Token(name) ==> (if is_bound(name, bound) {
            piece_after(piece, bound) is Text
        } else {
            piece_after(piece, bound) == piece
        }),
        piece is Text ==> piece_after(piece, bound) == piece,
    decreases bound.len(),
{
    if bound.len() > 0 {
        let earlier = bound.drop_last();
        assert(path_values_brace_free(earlier)) by {
            assert forall|j: int|
                0 <= j < earlier.len() && (#[trigger] earlier[j]).location
                    == ParameterLocation::Path implies brace_free(earlier[j].name) && brace_free(
                earlier[j].value,
            ) by {
                assert(earlier[j] == bound[j]);
            }
        }
        lemma_piece_after(piece, earlier);
        let last = bound.last();
        assert(last == bound[bound.len() - 1]);
        if let Piece::Token(name) = piece {
            if is_bound(name, earlier) {
                let j = choose|j: int|
                    0 <= j < earlier.len() && (#[trigger] earlier[j]).location
                        == ParameterLocation::Path && earlier[j].name == name;
                assert(bound[j] == earlier[j]);
            } else if is_bound(name, bound) {
                let j = choose|j: int|
                    0 <= j < bound.len() && (#[trigger] bound[j]).location
                        == ParameterLocation::Path && bound[j].name == name;
                if j < bound.len() - 1 {
                    assert(earlier[j] == bound[j]);
                }
            }
        }
    }
}

/// Substitution into the template of well-formed pieces, with names and
/// values that hold no brace, fills each placeholder with the value of the
/// first bound path value of its name and leaves everything else as it is.
pub proof fn lemma_substitution_by_pieces(pieces: Seq<Piece>, bound: Seq<BoundValueView>)
    requires
        pieces_ok(pieces),
        path_values_brace_free(bound),
    ensures
        plainly_substituted(flatten(pieces), bound) == flatten(pieces_after(pieces, bound)),
        pieces_ok(pieces_after(pieces, bound)),
    decreases bound.len(),
{
    assert forall|i: int| 0 <= i < pieces.len() implies piece_ok(
        #[trigger] pieces_after(pieces, bound)[i],
    ) by {
        lemma_piece_after(pieces[i], bound);
    }
    if bound.len() == 0 {
        assert(pieces_after(pieces, bound) == pieces);
    } else {
        let earlier = bound.drop_last();
        let last = bound.last();
        assert(last == bound[bound.len() - 1]);
        assert(path_values_brace_free(earlier)) by {
            assert forall|j: int|
                0 <= j < earlier.len() && (#[trigger] earlier[j]).location
                    == ParameterLocation::Path implies brace_free(earlier[j].name) && brace_free(
                earlier[j].value,
            ) by {
                assert(earlier[j] == bound[j]);
            }
        }
        lemma_substitution_by_pieces(pieces, earlier);
        lemma_one_value_by_pieces(pieces_after(pieces, earlier), last);
        assert(pieces_after(pieces, earlier).map_values(
            |piece: Piece| piece_after_one(piece, last),
        ) == pieces_after(pieces, bound));
    }
}

/// The template of well-formed text pieces holds no brace.
proof fn lemma_text_pieces_brace_free(pieces: Seq<Piece>)
    requires
        pieces_ok(pieces),
        forall|i: int| 0 <= i < pieces.len() ==> (#[trigger] pieces[i]) is Text,
    ensures
        brace_free(flatten(pieces)),
    decreases pieces.len(),
{
    if pieces.len() > 0 {
        let rest = pieces.drop_first();
        assert forall|i: int| 0 <= i < rest.len() implies piece_ok(#[trigger] rest[i])
            && rest[i] is Text by {
            assert(rest[i] == pieces[i + 1]);
        }
        lemma_text_pieces_brace_free(rest);
        assert(piece_ok(pieces[0]));
    }
}

/// Where every placeholder of a template names a bound path value, and
/// neither a name nor a value holds a brace, substitution leaves no brace
/// in the path.
pub proof fn lemma_bound_placeholders_leave_no_brace(
    pieces: Seq<Piece>,
    bound: Seq<BoundValueView>,
)
    requires
        pieces_ok(pieces),
        path_values_brace_free(bound),
        placeholders_bound(pieces, bound),
    ensures
        brace_free(plainly_substituted(flatten(pieces), bound)),
{
    lemma_substitution_by_pieces(pieces, bound);
    let after = pieces_after(pieces, bound);
    assert forall|i: int| 0 <= i < after.len() implies (#[trigger] after[i]) is Text by {
        lemma_piece_after(pieces[i], bound);
    }
    lemma_text_pieces_brace_free(after);
}

} // verus!
