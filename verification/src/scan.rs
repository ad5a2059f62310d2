use vstd::prelude::*;
use vstd::string::StringExecFns;
use crate::error::{GError, TiledError};
use crate::events::TreeEvent;
use crate::text::str_eq;

verus! {

/// The message of the premature-end error, naming the tag still open.
pub open spec fn premature_msg(close: Seq<char>) -> Seq<char> {
    "premature end of document before the closing tag of "@ + close
}

/// Builds the premature-end error for the tag named `close`.
pub fn premature_err(close: &str) -> (e: TiledError)
    ensures
        e@ == GError::PrematureEnd(premature_msg(close@)),
{
    TiledError::PrematureEnd(
        String::from_str("premature end of document before the closing tag of ").concat(close),
    )
}

/// The index just past the end tag that closes the subtree open at `i`, with
/// `depth` start tags still unclosed; nested subtrees are consumed by
/// structure alone, so an unknown tag cannot desynchronise the traversal.
/// `close` names the enclosing tag in the premature-end error.
pub open spec fn skip_end(events: Seq<TreeEvent>, i: int, depth: int, close: Seq<char>) -> Result<
    int,
    GError,
>
    decreases events.len() - i,
{
    if i < 0 || i >= events.len() {
        Err(GError::PrematureEnd(premature_msg(close)))
    } else {
        match events[i] {
            TreeEvent::Start { .. } => skip_end(events, i + 1, depth + 1, close),
            TreeEvent::End { .. } => if depth <= 1 {
                Ok(i + 1)
            } else {
                skip_end(events, i + 1, depth - 1, close)
            },
            TreeEvent::DocEnd => Err(GError::PrematureEnd(premature_msg(close))),
            TreeEvent::ReadError { message } => Err(GError::DecodingError(message@)),
            TreeEvent::Other => skip_end(events, i + 1, depth, close),
        }
    }
}

pub proof fn lemma_skip_end_advances(events: Seq<TreeEvent>, i: int, depth: int, close: Seq<char>)
    ensures
        match skip_end(events, i, depth, close) {
            Ok(j) => i < j <= events.len(),
            Err(_) => true,
        },
    decreases events.len() - i,
{
    if 0 <= i < events.len() {
        match events[i] {
            TreeEvent::Start { .. } => lemma_skip_end_advances(events, i + 1, depth + 1, close),
            TreeEvent::End { .. } => {
                if depth > 1 {
                    lemma_skip_end_advances(events, i + 1, depth - 1, close);
                }
            },
            TreeEvent::Other => lemma_skip_end_advances(events, i + 1, depth, close),
            _ => {},
        }
    }
}

/// The direct children of the element whose content starts at `i`: the index
/// of each child's start tag, in document order, and the index just past the
/// end tag named `close`. A start tag opens a child and its whole subtree is
/// stepped over; an end tag with another name is passed over; text and other
/// content is ignored; a document that ends first is a premature end, and a
/// read error is a decoding error.
pub open spec fn scan_kids(events: Seq<TreeEvent>, i: int, close: Seq<char>) -> Result<
    (Seq<int>, int),
    GError,
>
    decreases events.len() - i via scan_kids_dec
{
    if i < 0 || i >= events.len() {
        Err(GError::PrematureEnd(premature_msg(close)))
    } else {
        match events[i] {
            TreeEvent::Start { .. } => match skip_end(events, i + 1, 1, close) {
                Ok(j) => match scan_kids(events, j, close) {
                    Ok((ks, end)) => Ok((seq![i] + ks, end)),
                    Err(e) => Err(e),
                },
                Err(e) => Err(e),
            },
            TreeEvent::End { name } => if name@ == close {
                Ok((Seq::<int>::empty(), i + 1))
            } else {
                scan_kids(events, i + 1, close)
            },
            TreeEvent::DocEnd => Err(GError::PrematureEnd(premature_msg(close))),
            TreeEvent::ReadError { message } => Err(GError::DecodingError(message@)),
            TreeEvent::Other => scan_kids(events, i + 1, close),
        }
    }
}

#[via_fn]
proof fn scan_kids_dec(events: Seq<TreeEvent>, i: int, close: Seq<char>) {
    lemma_skip_end_advances(events, i + 1, 1, close);
}

/// Steps over the subtree open at `pos`, returning the index just past the
/// end tag that closes it.
pub fn skip_subtree(events: &Vec<TreeEvent>, pos: usize, close: &str) -> (r: Result<
    usize,
    TiledError,
>)
    requires
        pos >= 1,
    ensures
        match r {
            Ok(j) => skip_end(events@, pos as int, 1, close@) == Ok::<int, GError>(j as int) && pos
                < j <= events@.len(),
            Err(e) => skip_end(events@, pos as int, 1, close@) == Err::<int, GError>(e@),
        },
{
    let mut cur: usize = pos;
    let mut depth: usize = 1;
    loop
        invariant
            1 <= pos <= cur,
            1 <= depth,
            depth <= cur - pos + 1,
            skip_end(events@, pos as int, 1, close@) == skip_end(
                events@,
                cur as int,
                depth as int,
                close@,
            ),
        decreases events@.len() - cur,
    {
        if cur >= events.len() {
            return Err(premature_err(close));
        }
        match &events[cur] {
            TreeEvent::Start { .. } => {
                depth = depth + 1;
                cur = cur + 1;
            },
            TreeEvent::End { .. } => {
                if depth == 1 {
                    return Ok(cur + 1);
                }
                depth = depth - 1;
                cur = cur + 1;
            },
            TreeEvent::DocEnd => {
                return Err(premature_err(close));
            },
            TreeEvent::ReadError { message } => {
                return Err(TiledError::DecodingError(message.clone()));
            },
            TreeEvent::Other => {
                cur = cur + 1;
            },
        }
    }
}

/// Collects the direct children of the element whose content starts at
/// `pos`, exactly as `scan_kids` describes.
pub fn collect_children(events: &Vec<TreeEvent>, pos: usize, close: &str) -> (r: Result<
    (Vec<usize>, usize),
    TiledError,
>)
    ensures
        match r {
            Ok((kids, end)) => scan_kids(events@, pos as int, close@) == Ok::<_, GError>(
                (kids@.map_values(|u: usize| u as int), end as int),
            ) && (forall|t: int|
                0 <= t < kids@.len() ==> ((#[trigger] kids@[t]) as int) < events@.len()
                    && events@[kids@[t] as int] is Start) && pos < end <= events@.len(),
            Err(e) => scan_kids(events@, pos as int, close@) == Err::<(Seq<int>, int), GError>(e@),
        },
{
    let mut cur: usize = pos;
    let mut kids: Vec<usize> = Vec::new();
    proof {
        assert(kids@.map_values(|u: usize| u as int) =~= Seq::<int>::empty());
    }
    loop
        invariant
            pos <= cur,
            forall|t: int|
                0 <= t < kids@.len() ==> ((#[trigger] kids@[t]) as int) < events@.len()
                    && events@[kids@[t] as int] is Start,
            match scan_kids(events@, cur as int, close@) {
                Ok((ks, end)) => scan_kids(events@, pos as int, close@) == Ok::<_, GError>(
                    (kids@.map_values(|u: usize| u as int) + ks, end),
                ),
                Err(e) => scan_kids(events@, pos as int, close@) == Err::<(Seq<int>, int), GError>(
                    e,
                ),
            },
        decreases events@.len() - cur,
    {
        if cur >= events.len() {
            return Err(premature_err(close));
        }
        match &events[cur] {
            TreeEvent::Start { .. } => {
                match skip_subtree(events, cur + 1, close) {
                    Ok(j) => {
                        let ghost old_kids = kids@;
                        kids.push(cur);
                        proof {
                            assert(kids@.map_values(|u: usize| u as int) =~= old_kids.map_values(
                                |u: usize| u as int,
                            ).push(cur as int));
                            if let Ok((ks2, end2)) = scan_kids(events@, j as int, close@) {
                                assert(old_kids.map_values(|u: usize| u as int) + (seq![cur as int]
                                    + ks2) =~= kids@.map_values(|u: usize| u as int) + ks2);
                            }
                        }
                        cur = j;
                    },
                    Err(e) => {
                        return Err(e);
                    },
                }
            },
            TreeEvent::End { name } => {
                if str_eq(name.as_str(), close) {
                    proof {
                        assert(kids@.map_values(|u: usize| u as int) + Seq::<int>::empty()
                            =~= kids@.map_values(|u: usize| u as int));
                    }
                    return Ok((kids, cur + 1));
                }
                cur = cur + 1;
            },
            TreeEvent::DocEnd => {
                return Err(premature_err(close));
            },
            TreeEvent::ReadError { message } => {
                return Err(TiledError::DecodingError(message.clone()));
            },
            TreeEvent::Other => {
                cur = cur + 1;
            },
        }
    }
}

} // verus!
