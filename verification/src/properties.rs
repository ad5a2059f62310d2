use vstd::prelude::*;
use crate::attrs::{find_attr, last_attr};
use crate::error::{malformed_err, GError, TiledError};
use crate::events::TreeEvent;
use crate::scan::{collect_children, scan_kids};
use crate::text::str_eq;

verus! {

/// The properties of an object, collected from `property` children in
/// document order; `props_map` of the list is the mapping it denotes, a
/// later occurrence of a key overwriting an earlier one.
pub type Properties = Vec<(String, String)>;

/// The mapping that an ordered list of key/value pairs denotes.
pub open spec fn props_map(s: Seq<(String, String)>) -> Map<Seq<char>, Seq<char>>
    decreases s.len(),
{
    if s.len() == 0 {
        Map::<Seq<char>, Seq<char>>::empty()
    } else {
        props_map(s.drop_last()).insert(s.last().0@, s.last().1@)
    }
}

/// The message of the error for a property tag missing its name or value.
pub open spec fn property_msg() -> Seq<char> {
    "property must have a name and a value"@
}

/// The properties fold: each `property` child inserts its `name` and
/// `value` attributes into the mapping; a child missing either fails; any
/// other child is ignored.
pub open spec fn props_fold(
    events: Seq<TreeEvent>,
    kids: Seq<int>,
    acc: Map<Seq<char>, Seq<char>>,
) -> Result<Map<Seq<char>, Seq<char>>, GError>
    decreases kids.len(),
{
    if kids.len() == 0 {
        Ok(acc)
    } else {
        match events[kids.first()] {
            TreeEvent::Start { name, attrs } => if name@ == "property"@ {
                match (last_attr(attrs@, "name"@), last_attr(attrs@, "value"@)) {
                    (Some(k), Some(v)) => props_fold(events, kids.drop_first(), acc.insert(k, v)),
                    _ => Err(GError::MalformedAttributes(property_msg())),
                }
            } else {
                props_fold(events, kids.drop_first(), acc)
            },
            _ => props_fold(events, kids.drop_first(), acc),
        }
    }
}

/// What the `properties` element whose content starts at `i` denotes: its
/// children scanned, then the property tags folded in order.
pub open spec fn spec_properties(events: Seq<TreeEvent>, i: int) -> Result<
    (Map<Seq<char>, Seq<char>>, int),
    GError,
> {
    match scan_kids(events, i, "properties"@) {
        Err(e) => Err(e),
        Ok((kids, end)) => match props_fold(events, kids, Map::<Seq<char>, Seq<char>>::empty()) {
            Ok(m) => Ok((m, end)),
            Err(e) => Err(e),
        },
    }
}

/// Decodes a `properties` element exactly as `spec_properties` describes.
/// The pairs come back in document order; the mapping they denote is the
/// specified one.
#[verifier::loop_isolation(false)]
pub fn parse_properties(events: &Vec<TreeEvent>, pos: usize) -> (r: Result<
    (Properties, usize),
    TiledError,
>)
    ensures
        match r {
            Ok((p, end)) => spec_properties(events@, pos as int) == Ok::<_, GError>(
                (props_map(p@), end as int),
            ) && pos < end <= events@.len(),
            Err(e) => spec_properties(events@, pos as int) == Err::<
                (Map<Seq<char>, Seq<char>>, int),
                GError,
            >(e@),
        },
{
    let (kids, end) = match collect_children(events, pos, "properties") {
        Ok(x) => x,
        Err(e) => {
            return Err(e);
        },
    };
    let ghost gkids = kids@.map_values(|u: usize| u as int);
    let mut props: Properties = Vec::new();
    let mut t: usize = 0;
    proof {
        assert(props_map(props@) =~= Map::<Seq<char>, Seq<char>>::empty());
        assert(gkids.skip(0) =~= gkids);
    }
    while t < kids.len()
        invariant
            t <= kids@.len(),
            gkids == kids@.map_values(|u: usize| u as int),
            forall|q: int|
                0 <= q < kids@.len() ==> ((#[trigger] kids@[q]) as int) < events@.len(),
            match props_fold(events@, gkids.skip(t as int), props_map(props@)) {
                Ok(m) => props_fold(events@, gkids, Map::<Seq<char>, Seq<char>>::empty())
                    == Ok::<Map<Seq<char>, Seq<char>>, GError>(m),
                Err(e) => props_fold(events@, gkids, Map::<Seq<char>, Seq<char>>::empty())
                    == Err::<Map<Seq<char>, Seq<char>>, GError>(e),
            },
        decreases kids@.len() - t,
    {
        let k = kids[t];
        proof {
            assert(gkids.skip(t as int).first() == gkids[t as int]);
            assert(gkids.skip(t as int).drop_first() =~= gkids.skip(t as int + 1));
        }
        match &events[k] {
            TreeEvent::Start { name, attrs } => {
                if str_eq(name.as_str(), "property") {
                    let kn = match find_attr(attrs, "name") {
                        Some(v) => v.clone(),
                        None => {
                            return Err(malformed_err("property must have a name and a value"));
                        },
                    };
                    let kv = match find_attr(attrs, "value") {
                        Some(v) => v.clone(),
                        None => {
                            return Err(malformed_err("property must have a name and a value"));
                        },
                    };
                    let ghost old_props = props@;
                    props.push((kn, kv));
                    proof {
                        assert(props@.drop_last() =~= old_props);
                    }
                }
            },
            _ => {},
        }
        t += 1;
    }
    proof {
        assert(gkids.skip(kids@.len() as int) =~= Seq::<int>::empty());
    }
    Ok((props, end))
}

} // verus!
