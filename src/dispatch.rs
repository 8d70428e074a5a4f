//! The registry of action handlers: per language an ordered list, plus a
//! bucket of handlers that apply to every language. Resolution goes to the
//! first handler, in that order, that claims the action's identifier.

use vstd::prelude::*;
use crate::lua::LuaProvider;
use crate::provider::YamlProvider;
use crate::text::{chars_of, string_of};

verus! {

/// A handler, declarative or script-backed.
pub enum Handler {
    Yaml(YamlProvider),
    Lua(LuaProvider),
}

/// The identifier that a handler claims.
pub open spec fn handler_id(h: Handler) -> Seq<char> {
    match h {
        Handler::Yaml(p) => p.id@,
        Handler::Lua(p) => p.id@,
    }
}

impl Handler {
    pub fn can_handle(&self, action_name: &str) -> (r: bool)
        ensures
            r == (action_name@ == handler_id(*self)),
    {
        match self {
            Handler::Yaml(p) => p.can_handle(action_name),
            Handler::Lua(p) => p.can_handle(action_name),
        }
    }
}

/// The decimal digits of `n`.
pub open spec fn decimal(n: nat) -> Seq<char>
    decreases n,
{
    if n < 10 {
        seq![digit(n)]
    } else {
        decimal(n / 10).push(digit(n % 10))
    }
}

pub open spec fn digit(d: nat) -> char {
    if d == 0 { '0' } else if d == 1 { '1' } else if d == 2 { '2' } else if d == 3 { '3' }
    else if d == 4 { '4' } else if d == 5 { '5' } else if d == 6 { '6' } else if d == 7 { '7' }
    else if d == 8 { '8' } else { '9' }
}

fn digit_char(d: usize) -> (c: char)
    requires
        d < 10,
    ensures
        c == digit(d as nat),
{
    if d == 0 { '0' } else if d == 1 { '1' } else if d == 2 { '2' } else if d == 3 { '3' }
    else if d == 4 { '4' } else if d == 5 { '5' } else if d == 6 { '6' } else if d == 7 { '7' }
    else if d == 8 { '8' } else { '9' }
}

fn push_decimal(n: usize, out: &mut Vec<char>)
    ensures
        final(out)@ == old(out)@ + decimal(n as nat),
    decreases n,
{
    if n >= 10 {
        push_decimal(n / 10, out);
    }
    out.push(digit_char(n % 10));
}

/// The identifier of the `k`-th action of the configuration file at
/// `path`: the path, a dot, and `k` in decimal.
pub fn config_action_id(path: &str, k: usize) -> (r: String)
    ensures
        r@ == path@ + seq!['.'] + decimal(k as nat),
{
    let mut out = chars_of(path);
    out.push('.');
    push_decimal(k, &mut out);
    string_of(&out)
}

/// The handlers registered for one language.
pub struct Bucket {
    pub language: String,
    pub handlers: Vec<Handler>,
}

/// The name of the bucket whose handlers apply to every language.
pub open spec fn all_languages() -> Seq<char> {
    "__all__"@
}

pub struct Registry {
    pub buckets: Vec<Bucket>,
}

/// The index of the bucket of `lang`, if there is one.
pub open spec fn bucket_of(buckets: Seq<Bucket>, lang: Seq<char>) -> Option<int> {
    if exists|b: int| 0 <= b < buckets.len() && (#[trigger] buckets[b]).language@ == lang {
        Some(choose|b: int| 0 <= b < buckets.len() && (#[trigger] buckets[b]).language@ == lang)
    } else {
        None
    }
}

/// The slots (bucket, position) of the handlers of `lang`, in order.
pub open spec fn slots(buckets: Seq<Bucket>, lang: Seq<char>) -> Seq<(int, int)> {
    match bucket_of(buckets, lang) {
        Some(b) => Seq::new(buckets[b].handlers.len() as nat, |k: int| (b, k)),
        None => Seq::empty(),
    }
}

/// The order in which handlers are consulted for a document in `lang`: its
/// own handlers, then those for every language.
pub open spec fn candidates(buckets: Seq<Bucket>, lang: Seq<char>) -> Seq<(int, int)> {
    slots(buckets, lang) + slots(buckets, all_languages())
}

/// The identifier claimed by the handler in a slot.
pub open spec fn slot_id(buckets: Seq<Bucket>, s: (int, int)) -> Seq<char> {
    handler_id(buckets[s.0].handlers@[s.1])
}

impl Registry {
    /// No two buckets share a language.
    pub open spec fn wf(&self) -> bool {
        forall|a: int, b: int|
            0 <= a < b < self.buckets.len() ==> (#[trigger] self.buckets@[a]).language@
                != (#[trigger] self.buckets@[b]).language@
    }

    pub fn new() -> (r: Registry)
        ensures
            r.wf(),
            r.buckets.len() == 0,
    {
        Registry { buckets: Vec::new() }
    }

    /// The index of the bucket of `lang`.
    pub fn find_bucket(&self, lang: &str) -> (r: Option<usize>)
        requires
            self.wf(),
        ensures
            r matches Some(b) ==> bucket_of(self.buckets@, lang@) == Some(b as int),
            r is None ==> bucket_of(self.buckets@, lang@) is None,
    {
        let l = lang.to_owned();
        let mut b: usize = 0;
        while b < self.buckets.len()
            invariant
                b <= self.buckets.len(),
                self.wf(),
                l@ == lang@,
                forall|m: int| 0 <= m < b ==> (#[trigger] self.buckets@[m]).language@ != lang@,
            decreases self.buckets.len() - b,
        {
            if self.buckets[b].language == l {
                proof {
                    let c = choose|c: int| 0 <= c < self.buckets.len() && (#[trigger] self.buckets@[c]).language@ == lang@;
                    assert(self.buckets@[b as int].language@ == lang@);
                    if c != b {
                        if c < b {
                            assert(self.buckets@[c].language@ != lang@);
                        } else {
                            assert(self.buckets@[b as int].language@ != self.buckets@[c].language@);
                        }
                    }
                }
                return Some(b);
            }
            b = b + 1;
        }
        None
    }

    /// Appends `handler` to the handlers of `language`.
    pub fn register(&mut self, language: &str, handler: Handler)
        requires
            old(self).wf(),
        ensures
            final(self).wf(),
            match bucket_of(old(self).buckets@, language@) {
                Some(b) => {
                    &&& final(self).buckets.len() == old(self).buckets.len()
                    &&& final(self).buckets@[b].language@ == language@
                    &&& final(self).buckets@[b].handlers@ == old(self).buckets@[b].handlers@.push(handler)
                    &&& forall|c: int| 0 <= c < old(self).buckets.len() && c != b ==> #[trigger] final(self).buckets@[c] == old(self).buckets@[c]
                },
                None => {
                    &&& final(self).buckets.len() == old(self).buckets.len() + 1
                    &&& final(self).buckets@.last().language@ == language@
                    &&& final(self).buckets@.last().handlers@ == seq![handler]
                    &&& forall|c: int| 0 <= c < old(self).buckets.len() ==> #[trigger] final(self).buckets@[c] == old(self).buckets@[c]
                },
            },
    {
        match self.find_bucket(language) {
            Some(b) => {
                let mut bucket = self.buckets.remove(b);
                bucket.handlers.push(handler);
                self.buckets.insert(b, bucket);
                proof {
                    assert forall|x: int, y: int|
                        0 <= x < y < self.buckets.len() implies (#[trigger] self.buckets@[x]).language@
                            != (#[trigger] self.buckets@[y]).language@ by {
                        assert(old(self).buckets@[x].language@ == self.buckets@[x].language@);
                        assert(old(self).buckets@[y].language@ == self.buckets@[y].language@);
                    };
                }
            },
            None => {
                let mut handlers: Vec<Handler> = Vec::new();
                handlers.push(handler);
                self.buckets.push(Bucket { language: language.to_owned(), handlers });
                proof {
                    assert forall|x: int, y: int|
                        0 <= x < y < self.buckets.len() implies (#[trigger] self.buckets@[x]).language@
                            != (#[trigger] self.buckets@[y]).language@ by {
                        if y == self.buckets.len() - 1 {
                            assert(old(self).buckets@[x].language@ != language@);
                        } else {
                            assert(old(self).buckets@[x] == self.buckets@[x]);
                            assert(old(self).buckets@[y] == self.buckets@[y]);
                        }
                    };
                }
            },
        }
    }

    fn push_slots(&self, lang: &str, out: &mut Vec<(usize, usize)>)
        requires
            self.wf(),
        ensures
            final(out)@.map_values(|s: (usize, usize)| (s.0 as int, s.1 as int))
                == old(out)@.map_values(|s: (usize, usize)| (s.0 as int, s.1 as int)) + slots(self.buckets@, lang@),
    {
        let ghost start = old(out)@.map_values(|s: (usize, usize)| (s.0 as int, s.1 as int));
        match self.find_bucket(lang) {
            Some(b) => {
                let n = self.buckets[b].handlers.len();
                let mut k: usize = 0;
                while k < n
                    invariant
                        k <= n,
                        b < self.buckets.len(),
                        n == self.buckets@[b as int].handlers.len(),
                        out@.map_values(|s: (usize, usize)| (s.0 as int, s.1 as int))
                            == start + Seq::new(k as nat, |m: int| (b as int, m)),
                    decreases n - k,
                {
                    let ghost before = out@;
                    out.push((b, k));
                    assert(out@ == before.push((b, k)));
                    assert(out@.map_values(|s: (usize, usize)| (s.0 as int, s.1 as int))
                        =~= before.map_values(|s: (usize, usize)| (s.0 as int, s.1 as int)).push((b as int, k as int)));
                    k = k + 1;
                    assert(out@.map_values(|s: (usize, usize)| (s.0 as int, s.1 as int))
                        =~= start + Seq::new(k as nat, |m: int| (b as int, m)));
                }
            },
            None => {
                assert(out@.map_values(|s: (usize, usize)| (s.0 as int, s.1 as int)) =~= start + Seq::<(int, int)>::empty());
            },
        }
    }

    /// The slots of the handlers consulted for `lang`, in order: its own
    /// bucket, then the bucket for every language.
    pub fn handlers_for(&self, lang: &str) -> (r: Vec<(usize, usize)>)
        requires
            self.wf(),
        ensures
            r@.map_values(|s: (usize, usize)| (s.0 as int, s.1 as int)) == candidates(self.buckets@, lang@),
    {
        let mut out: Vec<(usize, usize)> = Vec::new();
        assert(out@.map_values(|s: (usize, usize)| (s.0 as int, s.1 as int)) =~= Seq::<(int, int)>::empty());
        self.push_slots(lang, &mut out);
        proof {
            reveal_strlit("__all__");
        }
        self.push_slots("__all__", &mut out);
        assert(Seq::<(int, int)>::empty() + slots(self.buckets@, lang@) =~= slots(self.buckets@, lang@));
        out
    }

    /// The first handler, in the order of `handlers_for`, that claims
    /// `code_action_id`.
    pub fn find_resolver(&self, code_action_id: &str, lang: &str) -> (r: Option<(usize, usize)>)
        requires
            self.wf(),
        ensures
            r is None ==> forall|m: int|
                0 <= m < candidates(self.buckets@, lang@).len() ==> slot_id(
                    self.buckets@,
                    #[trigger] candidates(self.buckets@, lang@)[m],
                ) != code_action_id@,
            r matches Some(s) ==> exists|m: int|
                0 <= m < candidates(self.buckets@, lang@).len()
                    && #[trigger] candidates(self.buckets@, lang@)[m] == (s.0 as int, s.1 as int)
                    && slot_id(self.buckets@, (s.0 as int, s.1 as int)) == code_action_id@
                    && forall|e: int| 0 <= e < m ==> slot_id(self.buckets@, #[trigger] candidates(self.buckets@, lang@)[e]) != code_action_id@,
    {
        let order = self.handlers_for(lang);
        let ghost cands = candidates(self.buckets@, lang@);
        let mut i: usize = 0;
        while i < order.len()
            invariant
                i <= order.len(),
                cands == candidates(self.buckets@, lang@),
                order@.map_values(|s: (usize, usize)| (s.0 as int, s.1 as int)) == cands,
                forall|e: int| 0 <= e < i ==> slot_id(self.buckets@, #[trigger] cands[e]) != code_action_id@,
            decreases order.len() - i,
        {
            let (b, k) = order[i];
            assert(cands[i as int] == (b as int, k as int));
            assert(0 <= b < self.buckets.len() && 0 <= k < self.buckets@[b as int].handlers.len()) by {
                lemma_candidate_in_range(self.buckets@, lang@, i as int);
            };
            if self.buckets[b].handlers[k].can_handle(code_action_id) {
                return Some((b, k));
            }
            i = i + 1;
        }
        None
    }
}

proof fn lemma_candidate_in_range(buckets: Seq<Bucket>, lang: Seq<char>, i: int)
    requires
        0 <= i < candidates(buckets, lang).len(),
    ensures
        0 <= candidates(buckets, lang)[i].0 < buckets.len(),
        0 <= candidates(buckets, lang)[i].1 < buckets[candidates(buckets, lang)[i].0].handlers.len(),
{
    let a = slots(buckets, lang);
    if i >= a.len() {
        let all = all_languages();
        assert(candidates(buckets, lang)[i] == slots(buckets, all)[i - a.len()]);
    } else {
        assert(candidates(buckets, lang)[i] == a[i]);
    }
}

} // verus!
