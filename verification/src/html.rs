//! The visible text of a web page.

use vstd::prelude::*;

use crate::fold;
use crate::text;

verus! {

/// What is searched for text.
pub const BODY_SELECTOR: &'static str = "body";

/// The size of a page, in bytes, up to which scraper can hold every text in it.
///
/// A text of scraper is limited to 2^31 bytes while it grows, and a byte of the page can become
/// three bytes of it.
pub const MAX_PAGE_BYTES: usize = 536870912;

/// A page that scraper can hold.
pub open spec fn page_fits(page: Seq<char>) -> bool {
    fold::bytes(page) <= MAX_PAGE_BYTES
}

/// The pieces of text under each of the elements of a page that a selector matches, in the order
/// of the page, as scraper finds them: nothing where the selector is none.
pub uninterp spec fn selected_text(html: Seq<char>, selector: Seq<char>) -> Option<
    Seq<Seq<Seq<char>>>,
>;

/// The texts of lists.
pub open spec fn text_lists(lists: Seq<Vec<String>>) -> Seq<Seq<Seq<char>>> {
    lists.map_values(|list: Vec<String>| text::texts(list@))
}

/// The texts that were found, if the selector is one.
pub open spec fn found_texts(res: Option<Vec<Vec<String>>>) -> Option<Seq<Seq<Seq<char>>>> {
    match res {
        Some(elements) => Some(text_lists(elements@)),
        None => None,
    }
}

/// What was found is told as it is.
pub proof fn found_texts_are_told_as_they_are(elements: Vec<Vec<String>>)
    ensures
        found_texts(Some(elements)) == Some(text_lists(elements@)),
        found_texts(None) is None,
        text_lists(elements@).len() == elements@.len(),
        forall|i: int|
            0 <= i < elements@.len() ==> #[trigger] text_lists(elements@)[i] == text::texts(
                elements@[i]@,
            ),
        BODY_SELECTOR@ == "body"@,
{
}

/// Calls `scraper::Html::parse_document` and `scraper::Selector::parse`, and hands out, for each
/// of the elements that `scraper::Html::select` gives, the text nodes that
/// `scraper::ElementRef::text` gives. What they give is a function of the page and the selector.
/// The name of an element is a selector. A greater page than required here may be refused by a
/// panic.
#[verifier::external_body]
fn scraper_text(html: &str, selector: &str) -> (res: Option<Vec<Vec<String>>>)
    requires
        page_fits(html@),
    ensures
        found_texts(res) == selected_text(html@, selector@),
        selector@ == BODY_SELECTOR@ ==> res is Some,
{
    let document = scraper::Html::parse_document(html);
    let selector = match scraper::Selector::parse(selector) {
        Ok(selector) => selector,
        Err(_) => return None,
    };
    let elements = document.select(&selector);
    Some(elements.map(|element| element.text().map(|part| part.to_string()).collect()).collect())
}

/// The pieces of text of all elements, one element after the other.
pub open spec fn pieces(elements: Seq<Seq<Seq<char>>>) -> Seq<Seq<char>>
    decreases elements.len(),
{
    if elements.len() == 0 {
        Seq::empty()
    } else {
        pieces(elements.drop_last()) + elements.last()
    }
}

/// Puts the pieces of text of all elements into one list.
pub fn all_pieces(elements: Vec<Vec<String>>) -> (res: Vec<String>)
    ensures
        text::texts(res@) == pieces(text_lists(elements@)),
{
    let ghost all = text_lists(elements@);
    let mut parts: Vec<String> = Vec::new();
    proof {
        assert(text::texts(parts@) =~= pieces(all.take(0)));
    }
    for element in iter: elements
        invariant
            iter.seq() == elements@,
            all == text_lists(elements@),
            text::texts(parts@) == pieces(all.take(iter.index() as int)),
    {
        let mut element = element;
        let ghost before = parts@;
        let ghost added = element@;
        parts.append(&mut element);
        proof {
            let i = iter.index() as int;
            assert(all.take(i + 1).drop_last() =~= all.take(i));
            assert(all.take(i + 1).last() == text::texts(added));
            assert(text::texts(parts@) =~= text::texts(before) + text::texts(added));
        }
    }
    proof {
        assert(all.take(all.len() as int) =~= all);
    }
    parts
}

/// The pieces of text that show something, without the white space around them.
pub open spec fn shown(parts: Seq<Seq<char>>) -> Seq<Seq<char>>
    decreases parts.len(),
{
    if parts.len() == 0 {
        Seq::empty()
    } else {
        let before = shown(parts.drop_last());
        let last = text::trimmed(parts.last());
        if last.len() == 0 {
            before
        } else {
            before.push(last)
        }
    }
}

/// The visible text of a page with these pieces of text: a line for each piece that shows
/// something, or the page itself where none does.
pub open spec fn visible(page: Seq<char>, parts: Seq<Seq<char>>) -> Seq<char> {
    let lines = text::joined(shown(parts), seq!['\n']);
    if lines.len() == 0 {
        page
    } else {
        lines
    }
}

/// Every piece that is shown begins and ends with a character that is no white space.
pub proof fn shown_pieces_are_trimmed(parts: Seq<Seq<char>>)
    ensures
        forall|i: int|
            0 <= i < shown(parts).len() ==> {
                &&& (#[trigger] shown(parts)[i]).len() > 0
                &&& !text::white_space(shown(parts)[i][0])
                &&& !text::white_space(shown(parts)[i].last())
            },
    decreases parts.len(),
{
    if parts.len() > 0 {
        shown_pieces_are_trimmed(parts.drop_last());
        text::trimmed_text_has_no_outer_white_space(parts.last());
        let before = shown(parts.drop_last());
        assert forall|i: int| 0 <= i < shown(parts).len() implies {
            &&& (#[trigger] shown(parts)[i]).len() > 0
            &&& !text::white_space(shown(parts)[i][0])
            &&& !text::white_space(shown(parts)[i].last())
        } by {
            if i < before.len() {
                assert(shown(parts)[i] == before[i]);
            }
        }
    }
}

/// What two lists of pieces show is what the first one shows and then what the second one shows;
/// a piece shows itself without the white space around it, and nothing where it is blank.
pub proof fn pieces_are_shown_one_by_one(a: Seq<Seq<char>>, b: Seq<Seq<char>>, piece: Seq<char>)
    ensures
        shown(a + b) == shown(a) + shown(b),
        shown(Seq::<Seq<char>>::empty()) == Seq::<Seq<char>>::empty(),
        text::blank(piece) ==> shown(seq![piece]) == Seq::<Seq<char>>::empty(),
        !text::blank(piece) ==> shown(seq![piece]) == seq![text::trimmed(piece)],
    decreases b.len(),
{
    text::blank_iff_trimmed_empty(piece);
    let one = seq![piece];
    assert(one.drop_last() =~= Seq::<Seq<char>>::empty());
    assert(shown(Seq::<Seq<char>>::empty()) =~= Seq::<Seq<char>>::empty());
    assert(shown(one) =~= if text::blank(piece) {
        Seq::<Seq<char>>::empty()
    } else {
        seq![text::trimmed(piece)]
    });
    if b.len() == 0 {
        assert(a + b =~= a);
        assert(shown(a) + shown(b) =~= shown(a));
    } else {
        pieces_are_shown_one_by_one(a, b.drop_last(), piece);
        assert((a + b).drop_last() =~= a + b.drop_last());
        assert(shown(a + b) =~= shown(a) + shown(b));
    }
}

/// Every piece that is not blank is shown, in the order of the pieces: behind all that the pieces
/// before it show.
pub proof fn no_piece_is_lost(parts: Seq<Seq<char>>, i: int)
    requires
        0 <= i < parts.len(),
        !text::blank(parts[i]),
    ensures
        shown(parts.take(i)).len() < shown(parts).len(),
        shown(parts)[shown(parts.take(i)).len() as int] == text::trimmed(parts[i]),
{
    let one = seq![parts[i]];
    pieces_are_shown_one_by_one(parts.take(i), one, parts[i]);
    pieces_are_shown_one_by_one(parts.take(i) + one, parts.skip(i + 1), parts[i]);
    assert(parts =~= parts.take(i) + one + parts.skip(i + 1));
}

/// As many pieces are shown as there are pieces that are not blank.
pub proof fn as_many_pieces_are_shown_as_are_not_blank(parts: Seq<Seq<char>>)
    ensures
        shown(parts).len() == parts.filter(|piece: Seq<char>| !text::blank(piece)).len(),
    decreases parts.len(),
{
    reveal(Seq::filter);
    if parts.len() > 0 {
        as_many_pieces_are_shown_as_are_not_blank(parts.drop_last());
        text::blank_iff_trimmed_empty(parts.last());
    }
}

/// The pieces of the elements come element by element, none of them lost.
pub proof fn elements_give_their_pieces_one_by_one(
    a: Seq<Seq<Seq<char>>>,
    element: Seq<Seq<char>>,
    b: Seq<Seq<Seq<char>>>,
)
    ensures
        pieces(a + seq![element] + b) == pieces(a) + element + pieces(b),
        pieces(Seq::<Seq<Seq<char>>>::empty()) == Seq::<Seq<char>>::empty(),
    decreases b.len(),
{
    assert(pieces(Seq::<Seq<Seq<char>>>::empty()) =~= Seq::<Seq<char>>::empty());
    let front = a + seq![element];
    if b.len() == 0 {
        assert(front + b =~= front);
        assert(front.drop_last() =~= a);
        assert(pieces(front) == pieces(a) + element);
        assert(pieces(front + b) =~= pieces(a) + element + pieces(b));
    } else {
        elements_give_their_pieces_one_by_one(a, element, b.drop_last());
        assert((front + b).drop_last() =~= front + b.drop_last());
        assert(pieces(front + b) =~= pieces(a) + element + pieces(b));
    }
}

/// The visible text is the page where all pieces are blank, and else the pieces that are shown,
/// a line each.
pub proof fn visible_text_is_what_is_shown(page: Seq<char>, parts: Seq<Seq<char>>)
    ensures
        (forall|i: int| 0 <= i < parts.len() ==> text::blank(#[trigger] parts[i])) ==> visible(
            page,
            parts,
        ) == page,
        (exists|i: int| 0 <= i < parts.len() && !text::blank(#[trigger] parts[i])) ==> visible(
            page,
            parts,
        ) == text::joined(shown(parts), seq!['\n']),
{
    shown_pieces_are_trimmed(parts);
    if exists|i: int| 0 <= i < parts.len() && !text::blank(#[trigger] parts[i]) {
        let i = choose|i: int| 0 <= i < parts.len() && !text::blank(#[trigger] parts[i]);
        no_piece_is_lost(parts, i);
        text::joined_is_as_long_as_its_first_part(shown(parts), seq!['\n']);
    } else {
        lemma_blank_pieces(parts);
    }
}

proof fn lemma_blank_pieces(parts: Seq<Seq<char>>)
    requires
        forall|i: int| 0 <= i < parts.len() ==> text::blank(#[trigger] parts[i]),
    ensures
        shown(parts) == Seq::<Seq<char>>::empty(),
    decreases parts.len(),
{
    if parts.len() > 0 {
        let rest = parts.drop_last();
        assert(forall|i: int| 0 <= i < rest.len() ==> #[trigger] rest[i] == parts[i]);
        lemma_blank_pieces(rest);
        assert(parts.last() == parts[parts.len() - 1]);
        text::blank_iff_trimmed_empty(parts.last());
    }
}

/// The visible text of a page is empty only where the page is.
pub proof fn only_an_empty_page_shows_nothing(page: Seq<char>, parts: Seq<Seq<char>>)
    ensures
        visible(page, parts).len() == 0 ==> page.len() == 0,
{
}

/// Puts the visible text of a page together from its pieces of text.
pub fn visible_text(page: &str, parts: &Vec<String>) -> (res: String)
    ensures
        res@ == visible(page@, text::texts(parts@)),
{
    let ghost all = text::texts(parts@);
    let mut lines = String::new();
    proof {
        assert(all.take(0) =~= Seq::<Seq<char>>::empty());
    }
    for i in 0..parts.len()
        invariant
            all == text::texts(parts@),
            lines@ == text::joined(shown(all.take(i as int)), seq!['\n']),
    {
        let part = text::trim(&parts[i]);
        proof {
            assert(all.take(i + 1).drop_last() =~= all.take(i as int));
            assert(all.take(i + 1).last() == parts@[i as int]@);
            let before = shown(all.take(i as int));
            shown_pieces_are_trimmed(all.take(i as int));
            text::joined_with_one_more(before, seq!['\n'], part@);
            if before.len() > 0 {
                text::joined_is_as_long_as_its_first_part(before, seq!['\n']);
            }
        }
        if part.unicode_len() > 0 {
            if lines.as_str().unicode_len() > 0 {
                lines.push('\n');
            }
            lines.append(part);
        }
    }
    proof {
        assert(all.take(all.len() as int) =~= all);
    }
    if lines.as_str().unicode_len() == 0 {
        page.to_string()
    } else {
        lines
    }
}

/// Every piece that is not blank stands, trimmed, in the text that `visible_text` puts together,
/// behind everything that the pieces before it show; without such a piece that text is the page.
pub proof fn every_piece_stands_in_the_visible_text(
    page: &str,
    parts: &Vec<String>,
    res: String,
    i: int,
)
    requires
        call_ensures(visible_text, (page, parts), res),
        0 <= i < parts@.len(),
    ensures
        !text::blank(parts@[i]@) ==> ({
            let before = text::joined(shown(text::texts(parts@.take(i))), seq!['\n']);
            let start: int = if before.len() == 0 {
                0
            } else {
                (before.len() + 1) as int
            };
            let piece = text::trimmed(parts@[i]@);
            &&& start + piece.len() <= res@.len()
            &&& res@.subrange(start, start + piece.len() as int) == piece
        }),
        (forall|k: int| 0 <= k < parts@.len() ==> text::blank((#[trigger] parts@[k])@)) ==> res@
            == page@,
{
    let all = text::texts(parts@);
    visible_text_is_what_is_shown(page@, all);
    assert(forall|k: int| 0 <= k < all.len() ==> #[trigger] all[k] == parts@[k]@);
    if !text::blank(parts@[i]@) {
        let one = seq![all[i]];
        let newline = seq!['\n'];
        let piece = text::trimmed(all[i]);
        assert(all.take(i) =~= text::texts(parts@.take(i)));
        assert(all =~= all.take(i) + one + all.skip(i + 1));
        pieces_are_shown_one_by_one(all.take(i), one, all[i]);
        pieces_are_shown_one_by_one(all.take(i) + one, all.skip(i + 1), all[i]);
        shown_pieces_are_trimmed(all.take(i));
        let head = shown(all.take(i));
        let tail = shown(all.skip(i + 1));
        let middle = seq![piece];
        assert(!text::blank(all[i]));
        if head.len() > 0 {
            text::joined_lists(head, middle, newline);
            text::joined_is_as_long_as_its_first_part(head, newline);
        } else {
            assert(head + middle =~= middle);
        }
        if tail.len() > 0 {
            text::joined_lists(head + middle, tail, newline);
        } else {
            assert(head + middle + tail =~= head + middle);
        }
        assert(text::joined(middle, newline) == piece);
    }
}

/// The visible text of a page that scraper can hold.
pub fn extract_visible_text(page: &str) -> (res: String)
    requires
        page_fits(page@),
    ensures
        selected_text(page@, BODY_SELECTOR@) matches Some(elements) && res@ == visible(
            page@,
            pieces(elements),
        ),
{
    let elements = match scraper_text(page, BODY_SELECTOR) {
        Some(elements) => elements,
        None => Vec::new(),
    };
    visible_text(page, &all_pieces(elements))
}

/// The visible text of a page, if scraper can hold the page.
pub fn checked_visible_text(page: &str) -> (res: Option<String>)
    ensures
        if page_fits(page@) {
            selected_text(page@, BODY_SELECTOR@) matches Some(elements) && res matches Some(text)
                && text@ == visible(page@, pieces(elements))
        } else {
            res is None
        },
{
    if page.as_bytes().len() <= MAX_PAGE_BYTES {
        Some(extract_visible_text(page))
    } else {
        None
    }
}

} // verus!
