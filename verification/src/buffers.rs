//! Buffers that plugins control: they stand beside the sheets and show what a
//! plugin draws in place of the goals.

use crate::app::App;
use crate::collections::StrMap;
use crate::text::{concat, opt, opt_clone, opt_is, texts};
use vstd::prelude::*;

verus! {

/// The buffers of plugins, the title by the id, and the one that is shown.
#[derive(Debug)]
pub struct BufferManager {
    pub buffers: StrMap,
    pub active: Option<String>,
}

/// The id of the buffer with a name.
pub open spec fn buffer_id(name: Seq<char>) -> Seq<char> {
    "buffer:"@ + name
}

/// The keys of some entries, in their order.
pub open spec fn keys_of(s: Seq<(String, String)>) -> Seq<Seq<char>> {
    s.map_values(|e: (String, String)| e.0@)
}

impl BufferManager {
    /// No buffers, and none shown.
    pub fn new() -> (r: BufferManager)
        ensures
            r.buffers@ == Map::<Seq<char>, Seq<char>>::empty(),
            r.active is None,
    {
        BufferManager { buffers: StrMap::new(), active: None }
    }

    /// Creates a buffer, or replaces the one of that name, and gives its id.
    pub fn create_buffer(&mut self, name: &str, title: String) -> (r: String)
        ensures
            r@ == buffer_id(name@),
            final(self).buffers@ == old(self).buffers@.insert(buffer_id(name@), title@),
            final(self).active == old(self).active,
    {
        let id = concat("buffer:", name);
        self.buffers.insert(id.clone(), title);
        id
    }

    /// Replaces a buffer; an error where there is none with that id.
    pub fn update_buffer(&mut self, id: &str, title: String) -> (r: Result<(), String>)
        ensures
            final(self).active == old(self).active,
            if old(self).buffers@.contains_key(id@) {
                r is Ok && final(self).buffers@ == old(self).buffers@.insert(id@, title@)
            } else {
                r is Err && r->Err_0@ == "buffer not found: "@ + id@ && final(self).buffers@ == old(
                    self,
                ).buffers@
            },
    {
        if self.buffers.contains_key(id) {
            self.buffers.insert(id.to_owned(), title);
            Ok(())
        } else {
            Err(concat("buffer not found: ", id))
        }
    }

    /// Sets a buffer, whether it was there or not.
    pub fn set_buffer(&mut self, id: &str, title: String)
        ensures
            final(self).buffers@ == old(self).buffers@.insert(id@, title@),
            final(self).active == old(self).active,
    {
        self.buffers.insert(id.to_owned(), title);
    }

    /// Removes a buffer; if it was shown, none is.
    pub fn remove_buffer(&mut self, id: &str)
        ensures
            final(self).buffers@ == old(self).buffers@.remove(id@),
            final(self).active == (if opt(old(self).active) == Some(id@) {
                None
            } else {
                old(self).active
            }),
    {
        self.buffers.remove(id);
        if opt_is(&self.active, id) {
            self.active = None;
        }
    }

    /// Shows a buffer, or none.
    pub fn select_buffer(&mut self, id: Option<String>)
        ensures
            *final(self) == (BufferManager { active: id, ..*old(self) }),
    {
        self.active = id;
    }

    /// The ids of the buffers, in increasing order.
    pub fn list_buffers(&self) -> (r: Vec<String>)
        ensures
            sorted_ids(texts(r@), self.buffers@.dom()),
    {
        let entries = self.buffers.entries();
        let mut out: Vec<String> = Vec::new();
        for i in 0..entries.len()
            invariant
                texts(out@) =~= keys_of(entries@).take(i as int),
        {
            let ghost prev = texts(out@);
            let k = entries[i].0.clone();
            out.push(k);
            assert(texts(out@) =~= prev.push(keys_of(entries@)[i as int]));
        }
        assert(texts(out@) =~= keys_of(entries@));
        proof {
            let ks = texts(out@);
            let m = self.buffers@;
            assert forall|i: int, j: int| 0 <= i < j < ks.len() implies crate::text::str_less(
                #[trigger] ks[i],
                #[trigger] ks[j],
            ) by {
                assert(ks[i] == entries@[i].0@);
                assert(ks[j] == entries@[j].0@);
            }
            assert forall|k: Seq<char>| #[trigger] ks.contains(k) <==> m.dom().contains(k) by {
                lemma_keys(entries@, k);
            }
        }
        out
    }

    /// The buffer that is shown.
    pub fn current_buffer(&self) -> (r: Option<String>)
        ensures
            r == self.active,
    {
        opt_clone(&self.active)
    }
}

/// Whether a list holds exactly the members of a set, each once, in increasing
/// order.
pub open spec fn sorted_ids(ids: Seq<Seq<char>>, s: Set<Seq<char>>) -> bool {
    &&& forall|i: int, j: int|
        0 <= i < j < ids.len() ==> crate::text::str_less(#[trigger] ids[i], #[trigger] ids[j])
    &&& forall|k: Seq<char>| #[trigger] ids.contains(k) <==> s.contains(k)
}

proof fn lemma_keys(s: Seq<(String, String)>, k: Seq<char>)
    ensures
        keys_of(s).contains(k) <==> crate::collections::map_of(s).contains_key(k),
    decreases s.len(),
{
    if s.len() > 0 {
        lemma_keys(s.drop_last(), k);
        let t = keys_of(s);
        assert(keys_of(s.drop_last()) =~= t.drop_last());
        assert(t.last() == s.last().0@);
        if t.contains(k) {
            let i = choose|i: int| 0 <= i < t.len() && t[i] == k;
            if i < t.len() - 1 {
                assert(t.drop_last()[i] == k);
            }
        }
        if t.drop_last().contains(k) {
            let i = choose|i: int| 0 <= i < t.len() - 1 && t.drop_last()[i] == k;
            assert(t[i] == k);
        }
        if s.last().0@ == k {
            assert(t[t.len() - 1] == k);
        }
    }
}

/// A created buffer is listed, and updating it succeeds.
pub proof fn law_created_buffers_are_there(
    before: Map<Seq<char>, Seq<char>>,
    after: Map<Seq<char>, Seq<char>>,
    name: Seq<char>,
    title: Seq<char>,
    ids: Seq<Seq<char>>,
)
    requires
        after == before.insert(buffer_id(name), title),
        sorted_ids(ids, after.dom()),
    ensures
        after.contains_key(buffer_id(name)),
        after[buffer_id(name)] == title,
        ids.contains(buffer_id(name)),
{
}

impl Default for BufferManager {
    fn default() -> (r: BufferManager)
        ensures
            r.buffers@ == Map::<Seq<char>, Seq<char>>::empty(),
            r.active is None,
    {
        BufferManager::new()
    }
}

impl App {
    /// Creates a buffer for a plugin and gives its id.
    pub fn create_plugin_buffer(&mut self, name: &str, title: String) -> (r: String)
        requires
            old(self).wf(),
        ensures
            final(self).wf(),
            r@ == buffer_id(name@),
            *final(self) == (App { buffer_manager: final(self).buffer_manager, ..*old(self) }),
            final(self).buffer_manager.buffers@ == old(self).buffer_manager.buffers@.insert(
                buffer_id(name@),
                title@,
            ),
            final(self).buffer_manager.active == old(self).buffer_manager.active,
    {
        self.buffer_manager.create_buffer(name, title)
    }

    /// Sets what a buffer shows.
    pub fn set_plugin_buffer(&mut self, id: &str, title: String)
        requires
            old(self).wf(),
        ensures
            final(self).wf(),
            *final(self) == (App { buffer_manager: final(self).buffer_manager, ..*old(self) }),
            final(self).buffer_manager.buffers@ == old(self).buffer_manager.buffers@.insert(
                id@,
                title@,
            ),
            final(self).buffer_manager.active == old(self).buffer_manager.active,
    {
        self.buffer_manager.set_buffer(id, title);
    }

    /// Removes a buffer; if it was shown, the goals are shown again.
    pub fn remove_plugin_buffer(&mut self, id: &str)
        requires
            old(self).wf(),
        ensures
            final(self).wf(),
            *final(self) == (App { buffer_manager: final(self).buffer_manager, ..*old(self) }),
            final(self).buffer_manager.buffers@ == old(self).buffer_manager.buffers@.remove(id@),
            final(self).buffer_manager.active == (if opt(old(self).buffer_manager.active) == Some(
                id@,
            ) {
                None
            } else {
                old(self).buffer_manager.active
            }),
    {
        self.buffer_manager.remove_buffer(id);
    }
}

/// Buffers with different names have different ids, and every id tells that it is one of a
/// buffer.
pub proof fn law_buffers_are_told_apart(a: Seq<char>, b: Seq<char>)
    ensures
        buffer_id(a) == buffer_id(b) <==> a == b,
        crate::text::after_prefix(buffer_id(a), "buffer:"@) == Some(a),
{
    crate::text::law_a_text_holds_its_parts(Seq::empty(), "buffer:"@, a);
    crate::text::law_a_text_holds_its_parts(Seq::empty(), "buffer:"@, b);
}

} // verus!
