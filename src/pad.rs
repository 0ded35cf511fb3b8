//! One-time pads and collections of them.
use crate::random::{EntropyUnavailable, SecureRandom};
use vstd::prelude::*;
use vstd::string::StringExecFns;

verus! {

/// Number of keys drawn for each requested key.
pub const KEY_SIZE: u8 = 5;

/// Smallest key value.
pub const MIN_KEY: u8 = 0;

/// Bound above every key value (exclusive).
pub const MAX_KEY: u8 = 10;

/// Smallest pad identifier.
pub const MIN_ID: u32 = 10000;

/// Bound above every pad identifier (exclusive).
pub const MAX_ID: u32 = 99999;

/// The decimal digit character for `d < 10`.
pub open spec fn digit_char(d: nat) -> char {
    seq!['0', '1', '2', '3', '4', '5', '6', '7', '8', '9'][d as int]
}

/// The decimal text of `n`, without sign or leading zeros.
pub open spec fn decimal_of(n: nat) -> Seq<char>
    decreases n,
{
    if n < 10 {
        seq![digit_char(n)]
    } else {
        decimal_of(n / 10).push(digit_char(n % 10))
    }
}

/// Relies on the `Display` of `u32` behind `to_string`: its decimal digits.
#[verifier::external_body]
fn decimal_string(n: u32) -> (r: String)
    ensures
        r@ == decimal_of(n as nat),
{
    n.to_string()
}

/// A pad's construction was given no keys.
#[derive(Debug, PartialEq, Eq, Structural)]
pub struct EmptyKeysError;

/// What a pad holds: its identifier and its keys, in order.
pub struct PadView {
    pub id: Seq<char>,
    pub keys: Seq<u8>,
}

/// One set of key material, under an identifier. It never holds zero keys.
#[derive(Debug)]
pub struct Pad {
    id: String,
    keys: Vec<u8>,
}

impl View for Pad {
    type V = PadView;

    closed spec fn view(&self) -> PadView {
        PadView { id: self.id@, keys: self.keys@ }
    }
}

impl Pad {
    #[verifier::type_invariant]
    spec fn keys_not_empty(&self) -> bool {
        self.keys@.len() > 0
    }

    /// A pad with the given identifier and keys; fails on an empty key sequence.
    pub fn new(id: &str, keys: Vec<u8>) -> (r: Result<Pad, EmptyKeysError>)
        ensures
            r.is_err() == (keys@.len() == 0),
            r matches Ok(p) ==> p@ == (PadView { id: id@, keys: keys@ }),
    {
        if keys.len() == 0 {
            return Err(EmptyKeysError);
        }
        Ok(Pad { id: String::from_str(id), keys })
    }

    pub fn get_id(&self) -> (r: &str)
        ensures
            r@ == self@.id,
    {
        self.id.as_str()
    }

    /// The number of keys; never zero.
    pub fn len(&self) -> (r: usize)
        ensures
            r == self@.keys.len(),
            r > 0,
    {
        proof {
            use_type_invariant(self);
        }
        self.keys.len()
    }

    pub fn get_keys(&self) -> (r: &[u8])
        ensures
            r@ == self@.keys,
    {
        self.keys.as_slice()
    }
}

/// What the generator makes for `nb_keys` requested keys: `nb_keys * KEY_SIZE`
/// keys in `MIN_KEY..MAX_KEY`, under the decimal text of a number in `MIN_ID..MAX_ID`.
pub open spec fn is_generated_pad(p: PadView, nb_keys: nat) -> bool {
    &&& p.keys.len() == nb_keys * KEY_SIZE
    &&& forall|i: int| 0 <= i < p.keys.len() ==> MIN_KEY <= #[trigger] p.keys[i] < MAX_KEY
    &&& exists|n: nat| MIN_ID <= n < MAX_ID && p.id == decimal_of(n)
}

/// Makes pads from the operating system's entropy source.
pub struct PadGenerator {
    rng: SecureRandom,
}

/// The key made from one raw draw.
pub open spec fn key_of_draw(d: u32) -> u8 {
    (d % 256) as u8
}

/// The pad made from the draws: the identifier is the decimal text of
/// `id_draw`, the keys are `key_draws`, in order; fails on no key draws.
pub fn pad_from_draws(id_draw: u32, key_draws: &Vec<u32>) -> (r: Result<Pad, EmptyKeysError>)
    ensures
        r.is_err() == (key_draws@.len() == 0),
        r matches Ok(p) ==> p@.id == decimal_of(id_draw as nat) && p@.keys == key_draws@.map_values(
            |d: u32| key_of_draw(d),
        ),
{
    let mut keys: Vec<u8> = Vec::new();
    let mut i: usize = 0;
    while i < key_draws.len()
        invariant
            i <= key_draws@.len(),
            keys@ == key_draws@.take(i as int).map_values(|d: u32| key_of_draw(d)),
        decreases key_draws@.len() - i,
    {
        keys.push((key_draws[i] % 256) as u8);
        i = i + 1;
        assert(keys@ =~= key_draws@.take(i as int).map_values(|d: u32| key_of_draw(d)));
    }
    assert(key_draws@.take(i as int) =~= key_draws@);
    let id = decimal_string(id_draw);
    Pad::new(id.as_str(), keys)
}

impl PadGenerator {
    pub fn new() -> Self {
        PadGenerator { rng: SecureRandom::new() }
    }

    /// One pad with `nb_keys * KEY_SIZE` keys and a random identifier: the
    /// identifier is drawn first, then each key in turn, and the pad is
    /// `pad_from_draws` of those draws. Fails with `EntropyUnavailable`,
    /// returning no pad, where a draw fails.
    pub fn generate_pad(&mut self, nb_keys: u8) -> (r: Result<Pad, EntropyUnavailable>)
        requires
            nb_keys >= 1,
        ensures
            r matches Ok(p) ==> is_generated_pad(p@, nb_keys as nat),
    {
        let id_draw = match self.rng.next_in_range(MIN_ID, MAX_ID) {
            Ok(v) => v,
            Err(e) => return Err(e),
        };
        assert(nb_keys as u16 * KEY_SIZE as u16 <= 1275) by (nonlinear_arith)
            requires
                nb_keys <= 255,
                KEY_SIZE == 5,
        ;
        let count: usize = (nb_keys as u16 * KEY_SIZE as u16) as usize;
        let mut draws: Vec<u32> = Vec::new();
        while draws.len() < count
            invariant
                draws@.len() <= count,
                forall|i: int| 0 <= i < draws@.len() ==> (MIN_KEY as u32) <= #[trigger] draws@[i] < (MAX_KEY as u32),
            decreases count - draws@.len(),
        {
            let k = match self.rng.next_in_range(MIN_KEY as u32, MAX_KEY as u32) {
                Ok(v) => v,
                Err(e) => return Err(e),
            };
            draws.push(k);
        }
        match pad_from_draws(id_draw, &draws) {
            Ok(pad) => {
                assert(MIN_ID <= id_draw as nat && id_draw < MAX_ID && pad@.id == decimal_of(id_draw as nat));
                assert forall|i: int| 0 <= i < pad@.keys.len() implies MIN_KEY <= #[trigger] pad@.keys[i] < MAX_KEY by {
                    assert(pad@.keys[i] == key_of_draw(draws@[i]));
                }
                Ok(pad)
            },
            Err(_) => {
                assert(draws@.len() == count && count >= 5);
                vstd::pervasive::unreached()
            },
        }
    }

    /// `nb_pads` pads, each made as `generate_pad` makes one, in order.
    /// Fails with `EntropyUnavailable`, returning no pad at all, where a draw fails.
    pub fn generate_pads(&mut self, nb_pads: u8, nb_keys: u8) -> (r: Result<Vec<Pad>, EntropyUnavailable>)
        requires
            nb_keys >= 1,
        ensures
            r matches Ok(pads) ==> pads@.len() == nb_pads && forall|i: int|
                0 <= i < pads@.len() ==> is_generated_pad(#[trigger] pads@[i]@, nb_keys as nat),
    {
        let mut pads: Vec<Pad> = Vec::new();
        let mut made: u8 = 0;
        while made < nb_pads
            invariant
                made <= nb_pads,
                nb_keys >= 1,
                pads@.len() == made,
                forall|i: int| 0 <= i < pads@.len() ==> is_generated_pad(#[trigger] pads@[i]@, nb_keys as nat),
            decreases nb_pads - made,
        {
            let pad = match self.generate_pad(nb_keys) {
                Ok(p) => p,
                Err(e) => return Err(e),
            };
            pads.push(pad);
            made = made + 1;
        }
        Ok(pads)
    }

    /// A collection of `nb_pads` freshly generated pads of `nb_keys` requested keys each.
    /// Fails with `EntropyUnavailable`, returning no collection, where a draw fails.
    pub fn create_collection(&mut self, nb_pads: u8, nb_keys: u8) -> (r: Result<PadCollection, EntropyUnavailable>)
        requires
            nb_keys >= 1,
        ensures
            r matches Ok(c) ==> c@.len() == nb_pads && forall|i: int|
                0 <= i < c@.len() ==> is_generated_pad(#[trigger] c@[i], nb_keys as nat),
    {
        let mut collection = PadCollection::new(Vec::new());
        let mut made: u8 = 0;
        while made < nb_pads
            invariant
                made <= nb_pads,
                nb_keys >= 1,
                collection@.len() == made,
                forall|i: int| 0 <= i < collection@.len() ==> is_generated_pad(#[trigger] collection@[i], nb_keys as nat),
            decreases nb_pads - made,
        {
            let pad = match self.generate_pad(nb_keys) {
                Ok(p) => p,
                Err(e) => return Err(e),
            };
            collection.add_pad(pad);
            made = made + 1;
        }
        Ok(collection)
    }
}

/// An ordered group of pads. Identifiers need not be unique.
#[derive(Debug)]
pub struct PadCollection {
    pads: Vec<Pad>,
}

/// The views of a sequence of pads.
pub open spec fn pad_views(pads: Seq<Pad>) -> Seq<PadView> {
    pads.map_values(|p: Pad| p@)
}

/// Whether a pad's identifier differs from `id`.
pub open spec fn id_differs(id: Seq<char>) -> spec_fn(PadView) -> bool {
    |p: PadView| p.id != id
}

impl View for PadCollection {
    type V = Seq<PadView>;

    closed spec fn view(&self) -> Seq<PadView> {
        pad_views(self.pads@)
    }
}

impl PadCollection {
    /// A collection of the given pads, in their order.
    pub fn new(pads: Vec<Pad>) -> (r: PadCollection)
        ensures
            r@ == pad_views(pads@),
    {
        PadCollection { pads }
    }

    /// Appends a pad; identifiers are not checked for uniqueness.
    pub fn add_pad(&mut self, pad: Pad)
        ensures
            final(self)@ == old(self)@.push(pad@),
    {
        self.pads.push(pad);
        proof {
            assert(pad_views(self.pads@) =~= pad_views(old(self).pads@).push(pad@));
        }
    }

    /// The first pad whose identifier is `id`, if any.
    pub fn get_pad(&self, id: &str) -> (r: Option<&Pad>)
        ensures
            match r {
                None => forall|i: int| 0 <= i < self@.len() ==> (#[trigger] self@[i]).id != id@,
                Some(p) => exists|i: int|
                    0 <= i < self@.len() && self@[i] == p@ && p@.id == id@
                    && forall|j: int| 0 <= j < i ==> (#[trigger] self@[j]).id != id@,
            },
    {
        let wanted = String::from_str(id);
        let mut i: usize = 0;
        while i < self.pads.len()
            invariant
                i <= self@.len(),
                self@.len() == self.pads@.len(),
                wanted@ == id@,
                forall|j: int| 0 <= j < i ==> (#[trigger] self@[j]).id != id@,
            decreases self.pads@.len() - i,
        {
            assert(self@[i as int] == self.pads@[i as int]@);
            if self.pads[i].id == wanted {
                return Some(&self.pads[i]);
            }
            i = i + 1;
        }
        None
    }

    /// Removes every pad whose identifier is `id`, keeping the others in order.
    pub fn delete_pad(&mut self, id: &str)
        ensures
            final(self)@ == old(self)@.filter(id_differs(id@)),
    {
        let wanted = String::from_str(id);
        let ghost orig = self.pads@;
        let mut rest: Vec<Pad> = Vec::new();
        std::mem::swap(&mut self.pads, &mut rest);
        let ghost mut k: int = 0;
        proof {
            assert(pad_views(orig.take(0)) =~= Seq::<PadView>::empty());
            assert(orig.skip(0) =~= orig);
            reveal(Seq::filter);
        }
        while rest.len() > 0
            invariant
                0 <= k <= orig.len(),
                rest@ == orig.skip(k),
                wanted@ == id@,
                pad_views(self.pads@) == pad_views(orig.take(k)).filter(id_differs(id@)),
            decreases rest@.len(),
        {
            let pad = rest.remove(0);
            proof {
                assert(pad == orig[k]);
                assert(orig.take(k + 1) =~= orig.take(k).push(pad));
                assert(pad_views(orig.take(k + 1)) =~= pad_views(orig.take(k)).push(pad@));
                pad_views(orig.take(k)).lemma_filter_push(pad@, id_differs(id@));
            }
            if pad.id != wanted {
                let ghost before = self.pads@;
                self.pads.push(pad);
                proof {
                    assert(pad_views(self.pads@) =~= pad_views(before).push(pad@));
                }
            }
            proof {
                k = k + 1;
                assert(rest@ =~= orig.skip(k));
            }
        }
        proof {
            assert(orig.take(k) =~= orig);
        }
    }

    /// Whether the collection holds no pad.
    pub fn is_empty(&self) -> (r: bool)
        ensures
            r == (self@.len() == 0),
    {
        self.pads.len() == 0
    }

    /// The number of pads held.
    pub fn len(&self) -> (r: usize)
        ensures
            r == self@.len(),
    {
        self.pads.len()
    }

    /// The pads, in order.
    pub fn pads(&self) -> (r: &Vec<Pad>)
        ensures
            pad_views(r@) == self@,
    {
        &self.pads
    }

    /// The pads, in order, taken out of the collection.
    pub fn into_pads(self) -> (r: Vec<Pad>)
        ensures
            pad_views(r@) == self@,
    {
        self.pads
    }
}

/// The pads left after `delete_pad` is called with each identifier of `ids`,
/// in turn: each call leaves `old@.filter(id_differs(id@))`.
pub open spec fn after_deletes(pads: Seq<PadView>, ids: Seq<Seq<char>>) -> Seq<PadView>
    decreases ids.len(),
{
    if ids.len() == 0 {
        pads
    } else {
        after_deletes(pads.filter(id_differs(ids[0])), ids.drop_first())
    }
}

/// Removing the pads of an identifier leaves no pad with that identifier,
/// and keeps every pad with another identifier.
pub proof fn lemma_delete_removes_id(pads: Seq<PadView>, id: Seq<char>)
    ensures
        forall|i: int|
            0 <= i < pads.filter(id_differs(id)).len() ==> (#[trigger] pads.filter(
                id_differs(id),
            )[i]).id != id,
        forall|i: int|
            0 <= i < pads.len() && pads[i].id != id ==> #[trigger] pads.filter(
                id_differs(id),
            ).contains(pads[i]),
{
    assert forall|i: int| 0 <= i < pads.filter(id_differs(id)).len() implies (
    #[trigger] pads.filter(id_differs(id))[i]).id != id by {
        pads.lemma_filter_pred(id_differs(id), i);
    }
    assert forall|i: int| 0 <= i < pads.len() && pads[i].id != id implies #[trigger] pads.filter(
        id_differs(id),
    ).contains(pads[i]) by {
        pads.lemma_filter_contains(id_differs(id), i);
    }
}

/// A collection whose pads all carry `id` is empty once the pads of `id` are removed.
pub proof fn lemma_delete_only_id_empties(pads: Seq<PadView>, id: Seq<char>)
    requires
        forall|i: int| 0 <= i < pads.len() ==> (#[trigger] pads[i]).id == id,
    ensures
        pads.filter(id_differs(id)).len() == 0,
{
    let kept = pads.filter(id_differs(id));
    if kept.len() > 0 {
        pads.lemma_filter_pred(id_differs(id), 0);
        assert(kept.contains(kept[0]));
        pads.lemma_filter_contains_rev(id_differs(id), kept[0]);
    }
}

/// A collection is empty once the pads of every identifier it holds are removed.
pub proof fn lemma_delete_all_empties(pads: Seq<PadView>, ids: Seq<Seq<char>>)
    requires
        forall|i: int| 0 <= i < pads.len() ==> ids.contains(#[trigger] pads[i].id),
    ensures
        after_deletes(pads, ids).len() == 0,
    decreases ids.len(),
{
    if ids.len() == 0 {
        if pads.len() > 0 {
            assert(ids.contains(pads[0].id));
        }
    } else {
        let kept = pads.filter(id_differs(ids[0]));
        assert forall|i: int| 0 <= i < kept.len() implies ids.drop_first().contains(
            #[trigger] kept[i].id,
        ) by {
            pads.lemma_filter_pred(id_differs(ids[0]), i);
            assert(kept.contains(kept[i]));
            pads.lemma_filter_contains_rev(id_differs(ids[0]), kept[i]);
            let j = choose|j: int| 0 <= j < pads.len() && pads[j] == kept[i];
            assert(ids.contains(pads[j].id));
            let m = choose|m: int| 0 <= m < ids.len() && ids[m] == pads[j].id;
            assert(m != 0);
            assert(ids.drop_first()[m - 1] == kept[i].id);
        }
        lemma_delete_all_empties(kept, ids.drop_first());
    }
}

/// A collection made from no pads is empty.
pub proof fn lemma_new_of_nothing_is_empty(pads: Seq<Pad>)
    requires
        pads.len() == 0,
    ensures
        pad_views(pads).len() == 0,
{
}

} // verus!
