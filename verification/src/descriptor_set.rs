//! Groups of descriptor sets: queries by set index, and the resources that
//! the sets of a group refer to, in group order.

use crate::resource::{BufferHandle, ImageHandle};
use vstd::prelude::*;

verus! {

/// What kind of resource a binding slot takes.
#[derive(Clone, Copy, Debug, PartialEq, Eq, Structural)]
pub enum DescriptorKind {
    Sampler,
    CombinedImageSampler,
    Image,
    TexelBuffer,
    InputAttachment,
    Buffer,
}

/// One binding slot as shaders see it. The groups in this module hand
/// descriptors through and never look inside them.
#[derive(Clone, Copy, Debug, PartialEq, Eq, Structural)]
pub struct DescriptorDesc {
    pub kind: DescriptorKind,
    pub array_count: u32,
    pub stages: u32,
    pub readonly: bool,
}

/// A descriptor set: its binding slots, some of which may be empty, and the
/// buffers and images that it refers to.
#[derive(Clone, Debug, PartialEq, Eq)]
pub struct DescriptorSet {
    pub id: u64,
    pub bindings: Vec<Option<DescriptorDesc>>,
    pub buffers: Vec<BufferHandle>,
    pub images: Vec<ImageHandle>,
}

pub struct DescriptorSetView {
    pub id: u64,
    pub bindings: Seq<Option<DescriptorDesc>>,
    pub buffers: Seq<BufferHandle>,
    pub images: Seq<ImageHandle>,
}

impl View for DescriptorSet {
    type V = DescriptorSetView;

    open spec fn view(&self) -> DescriptorSetView {
        DescriptorSetView {
            id: self.id,
            bindings: self.bindings@,
            buffers: self.buffers@,
            images: self.images@,
        }
    }
}

/// The sets of a list, each as its view.
pub open spec fn set_views(sets: Seq<DescriptorSet>) -> Seq<DescriptorSetView> {
    Seq::new(sets.len(), |i: int| sets[i]@)
}

/// The number of binding slots of the set at index `set`, where there is
/// such a set.
pub open spec fn binding_count_for(sets: Seq<DescriptorSetView>, set: int) -> Option<nat> {
    if 0 <= set < sets.len() {
        Some(sets[set].bindings.len())
    } else {
        None
    }
}

/// The descriptor in slot `binding` of the set at index `set`, where there
/// is such a set, it has such a slot, and the slot is not empty.
pub open spec fn binding_descriptor_for(sets: Seq<DescriptorSetView>, set: int, binding: int)
    -> Option<DescriptorDesc> {
    if 0 <= set < sets.len() && 0 <= binding < sets[set].bindings.len() {
        sets[set].bindings[binding]
    } else {
        None
    }
}

/// The parts one after another, in order.
pub open spec fn concat<T>(parts: Seq<Seq<T>>) -> Seq<T>
    decreases parts.len(),
{
    if parts.len() == 0 {
        Seq::empty()
    } else {
        concat(parts.drop_last()) + parts.last()
    }
}

/// The lengths of the parts, added up.
pub open spec fn total_len<T>(parts: Seq<Seq<T>>) -> nat
    decreases parts.len(),
{
    if parts.len() == 0 {
        0
    } else {
        total_len(parts.drop_last()) + parts.last().len()
    }
}

/// For each set, in order, the buffers that it refers to.
pub open spec fn buffer_lists(sets: Seq<DescriptorSetView>) -> Seq<Seq<BufferHandle>> {
    Seq::new(sets.len(), |i: int| sets[i].buffers)
}

/// For each set, in order, the images that it refers to.
pub open spec fn image_lists(sets: Seq<DescriptorSetView>) -> Seq<Seq<ImageHandle>> {
    Seq::new(sets.len(), |i: int| sets[i].images)
}

/// The buffers that the sets refer to: those of the first set, then those
/// of the second, and so on. A buffer that several sets refer to stands
/// once for each.
pub open spec fn buffers_referenced(sets: Seq<DescriptorSetView>) -> Seq<BufferHandle> {
    concat(buffer_lists(sets))
}

/// The images that the sets refer to, in the same order.
pub open spec fn images_referenced(sets: Seq<DescriptorSetView>) -> Seq<ImageHandle> {
    concat(image_lists(sets))
}

/// Joining parts yields as many items as the parts hold together.
pub proof fn lemma_concat_len<T>(parts: Seq<Seq<T>>)
    ensures
        concat(parts).len() == total_len(parts),
    decreases parts.len(),
{
    if parts.len() > 0 {
        lemma_concat_len(parts.drop_last());
    }
}

/// Joining a single part gives that part.
pub proof fn lemma_concat_one<T>(part: Seq<T>)
    ensures
        concat(seq![part]) == part,
{
    let parts = seq![part];
    assert(concat(parts.drop_last()) =~= Seq::<T>::empty());
    assert(concat(parts) =~= part);
}

/// Joining two runs of parts is joining each run and putting the results
/// end to end; a run without parts adds nothing.
pub proof fn lemma_concat_append<T>(a: Seq<Seq<T>>, b: Seq<Seq<T>>)
    ensures
        concat(a + b) == concat(a) + concat(b),
    decreases b.len(),
{
    if b.len() == 0 {
        assert(a + b =~= a);
        assert(concat(a) + concat(b) =~= concat(a));
    } else {
        assert((a + b).drop_last() =~= a + b.drop_last());
        assert((a + b).last() == b.last());
        lemma_concat_append(a, b.drop_last());
        assert((concat(a) + concat(b.drop_last())) + b.last() =~= concat(a) + (concat(
            b.drop_last(),
        ) + b.last()));
    }
}

/// The item at a position of the joined parts is an item of the part that
/// covers the position: the items of part `k` start where the parts before
/// it end.
pub proof fn lemma_concat_index<T>(parts: Seq<Seq<T>>, k: int, j: int)
    requires
        0 <= k < parts.len(),
        0 <= j < parts[k].len(),
    ensures
        total_len(parts.take(k)) + j < concat(parts).len(),
        concat(parts)[total_len(parts.take(k)) + j] == parts[k][j],
    decreases parts.len(),
{
    lemma_concat_len(parts.drop_last());
    if k == parts.len() - 1 {
        assert(parts.take(k) =~= parts.drop_last());
    } else {
        assert(parts.drop_last().take(k) =~= parts.take(k));
        lemma_concat_index(parts.drop_last(), k, j);
    }
}

/// A group of sets refers to as many buffers, and to as many images, as
/// its sets do together.
pub proof fn lemma_referenced_counts(sets: Seq<DescriptorSetView>)
    ensures
        buffers_referenced(sets).len() == total_len(buffer_lists(sets)),
        images_referenced(sets).len() == total_len(image_lists(sets)),
{
    lemma_concat_len(buffer_lists(sets));
    lemma_concat_len(image_lists(sets));
}

/// Appends a copy of each item of `items`, in order.
fn append_copies<T: Copy>(out: &mut Vec<T>, items: &Vec<T>)
    ensures
        final(out)@ == old(out)@ + items@,
{
    let ghost before = out@;
    let mut i: usize = 0;
    assert(before + items@.take(0) =~= before);
    while i < items.len()
        invariant
            i <= items.len(),
            out@ == before + items@.take(i as int),
        decreases items.len() - i,
    {
        out.push(items[i]);
        assert(before + items@.take(i + 1) =~= (before + items@.take(i as int)).push(
            items@[i as int],
        ));
        i += 1;
    }
    assert(items@.take(i as int) =~= items@);
}

impl DescriptorSet {
    /// The number of binding slots, empty ones included.
    pub fn binding_count(&self) -> (count: usize)
        ensures
            count == self@.bindings.len(),
    {
        self.bindings.len()
    }

    /// The descriptor in slot `index`: `None` for an empty slot and for an
    /// index past the last slot.
    pub fn binding_descriptor(&self, index: usize) -> (r: Option<DescriptorDesc>)
        ensures
            r == if index < self@.bindings.len() {
                self@.bindings[index as int]
            } else {
                None
            },
    {
        if index < self.bindings.len() {
            self.bindings[index]
        } else {
            None
        }
    }

    /// The buffers that the set refers to.
    pub fn referenced_buffers(&self) -> (list: Vec<BufferHandle>)
        ensures
            list@ == self@.buffers,
    {
        let mut list: Vec<BufferHandle> = Vec::new();
        append_copies(&mut list, &self.buffers);
        assert(Seq::<BufferHandle>::empty() + self.buffers@ =~= self.buffers@);
        list
    }

    /// The images that the set refers to.
    pub fn referenced_images(&self) -> (list: Vec<ImageHandle>)
        ensures
            list@ == self@.images,
    {
        let mut list: Vec<ImageHandle> = Vec::new();
        append_copies(&mut list, &self.images);
        assert(Seq::<ImageHandle>::empty() + self.images@ =~= self.images@);
        list
    }
}

/// A collection of descriptor sets, addressed by set index from zero.
pub trait DescriptorSetsCollection: Sized {
    /// The sets of the collection, in order.
    spec fn sets_spec(&self) -> Seq<DescriptorSetView>;

    /// Gives the sets up, in order. The collection is gone afterwards.
    fn into_vec(self) -> (list: Vec<DescriptorSet>)
        ensures
            list@.len() == self.sets_spec().len(),
            set_views(list@) == self.sets_spec(),
    ;

    /// The number of binding slots of the set at index `set`, empty slots
    /// included; `None` if there is no such set.
    fn num_bindings_in_set(&self, set: usize) -> (r: Option<usize>)
        ensures
            match r {
                Some(count) => binding_count_for(self.sets_spec(), set as int) == Some(
                    count as nat,
                ),
                None => binding_count_for(self.sets_spec(), set as int) is None,
            },
    ;

    /// The descriptor in slot `binding` of the set at index `set`; `None`
    /// if either is out of range or the slot is empty.
    fn descriptor(&self, set: usize, binding: usize) -> (r: Option<DescriptorDesc>)
        ensures
            r == binding_descriptor_for(self.sets_spec(), set as int, binding as int),
    ;

    /// The buffers that the sets refer to, set by set.
    fn buffers_list(&self) -> (list: Vec<BufferHandle>)
        ensures
            list@ == buffers_referenced(self.sets_spec()),
    ;

    /// The images that the sets refer to, set by set.
    fn images_list(&self) -> (list: Vec<ImageHandle>)
        ensures
            list@ == images_referenced(self.sets_spec()),
    ;
}

/// The collection without sets.
impl DescriptorSetsCollection for () {
    open spec fn sets_spec(&self) -> Seq<DescriptorSetView> {
        Seq::empty()
    }

    fn into_vec(self) -> (list: Vec<DescriptorSet>) {
        let list: Vec<DescriptorSet> = Vec::new();
        assert(set_views(list@) =~= Seq::<DescriptorSetView>::empty());
        list
    }

    fn num_bindings_in_set(&self, set: usize) -> (r: Option<usize>) {
        None
    }

    fn descriptor(&self, set: usize, binding: usize) -> (r: Option<DescriptorDesc>) {
        None
    }

    fn buffers_list(&self) -> (list: Vec<BufferHandle>) {
        assert(buffer_lists(self.sets_spec()).len() == 0);
        Vec::new()
    }

    fn images_list(&self) -> (list: Vec<ImageHandle>) {
        assert(image_lists(self.sets_spec()).len() == 0);
        Vec::new()
    }
}

/// One set is a collection of one: only set index 0 is in range.
impl DescriptorSetsCollection for DescriptorSet {
    open spec fn sets_spec(&self) -> Seq<DescriptorSetView> {
        seq![self@]
    }

    fn into_vec(self) -> (list: Vec<DescriptorSet>) {
        let ghost me = self@;
        let mut list: Vec<DescriptorSet> = Vec::new();
        list.push(self);
        assert(set_views(list@) =~= seq![me]);
        list
    }

    fn num_bindings_in_set(&self, set: usize) -> (r: Option<usize>) {
        if set == 0 {
            Some(self.binding_count())
        } else {
            None
        }
    }

    fn descriptor(&self, set: usize, binding: usize) -> (r: Option<DescriptorDesc>) {
        if set == 0 {
            self.binding_descriptor(binding)
        } else {
            None
        }
    }

    fn buffers_list(&self) -> (list: Vec<BufferHandle>) {
        proof {
            assert(buffer_lists(self.sets_spec()) =~= seq![self@.buffers]);
            lemma_concat_one(self@.buffers);
        }
        self.referenced_buffers()
    }

    fn images_list(&self) -> (list: Vec<ImageHandle>) {
        proof {
            assert(image_lists(self.sets_spec()) =~= seq![self@.images]);
            lemma_concat_one(self@.images);
        }
        self.referenced_images()
    }
}

/// An ordered group of sets: the set at index `k` is the `k`-th of the list.
#[derive(Clone, Debug, PartialEq, Eq)]
pub struct DescriptorSetGroup {
    pub sets: Vec<DescriptorSet>,
}

impl DescriptorSetGroup {
    /// The group of the given sets, in the order given.
    pub fn new(sets: Vec<DescriptorSet>) -> (group: DescriptorSetGroup)
        ensures
            group.sets == sets,
    {
        DescriptorSetGroup { sets }
    }
}

impl DescriptorSetsCollection for DescriptorSetGroup {
    open spec fn sets_spec(&self) -> Seq<DescriptorSetView> {
        set_views(self.sets@)
    }

    fn into_vec(self) -> (list: Vec<DescriptorSet>) {
        self.sets
    }

    fn num_bindings_in_set(&self, set: usize) -> (r: Option<usize>) {
        if set < self.sets.len() {
            Some(self.sets[set].binding_count())
        } else {
            None
        }
    }

    fn descriptor(&self, set: usize, binding: usize) -> (r: Option<DescriptorDesc>) {
        if set < self.sets.len() {
            self.sets[set].binding_descriptor(binding)
        } else {
            None
        }
    }

    fn buffers_list(&self) -> (list: Vec<BufferHandle>) {
        let ghost parts = buffer_lists(self.sets_spec());
        let mut list: Vec<BufferHandle> = Vec::new();
        let mut i: usize = 0;
        while i < self.sets.len()
            invariant
                i <= self.sets.len(),
                parts == buffer_lists(self.sets_spec()),
                list@ == concat(parts.take(i as int)),
            decreases self.sets.len() - i,
        {
            append_copies(&mut list, &self.sets[i].buffers);
            proof {
                assert(parts.take(i + 1).drop_last() =~= parts.take(i as int));
                assert(parts.take(i + 1).last() == self.sets[i as int].buffers@);
            }
            i += 1;
        }
        assert(parts.take(i as int) =~= parts);
        list
    }

    fn images_list(&self) -> (list: Vec<ImageHandle>) {
        let ghost parts = image_lists(self.sets_spec());
        let mut list: Vec<ImageHandle> = Vec::new();
        let mut i: usize = 0;
        while i < self.sets.len()
            invariant
                i <= self.sets.len(),
                parts == image_lists(self.sets_spec()),
                list@ == concat(parts.take(i as int)),
            decreases self.sets.len() - i,
        {
            append_copies(&mut list, &self.sets[i].images);
            proof {
                assert(parts.take(i + 1).drop_last() =~= parts.take(i as int));
                assert(parts.take(i + 1).last() == self.sets[i as int].images@);
            }
            i += 1;
        }
        assert(parts.take(i as int) =~= parts);
        list
    }
}

/// A set in front of a collection: the set has index 0, and each set of the
/// collection behind it the index it has there, plus one. Pairs nest, so
/// `(a, (b, c))` holds three sets.
impl<R: DescriptorSetsCollection> DescriptorSetsCollection for (DescriptorSet, R) {
    open spec fn sets_spec(&self) -> Seq<DescriptorSetView> {
        seq![self.0@] + self.1.sets_spec()
    }

    fn into_vec(self) -> (list: Vec<DescriptorSet>) {
        let ghost all = self.sets_spec();
        let (head, rest) = self;
        let mut list = rest.into_vec();
        list.insert(0, head);
        assert(set_views(list@) =~= all);
        list
    }

    fn num_bindings_in_set(&self, set: usize) -> (r: Option<usize>) {
        if set == 0 {
            Some(self.0.binding_count())
        } else {
            self.1.num_bindings_in_set(set - 1)
        }
    }

    fn descriptor(&self, set: usize, binding: usize) -> (r: Option<DescriptorDesc>) {
        if set == 0 {
            self.0.binding_descriptor(binding)
        } else {
            self.1.descriptor(set - 1, binding)
        }
    }

    fn buffers_list(&self) -> (list: Vec<BufferHandle>) {
        let mut list = self.0.referenced_buffers();
        let rest = self.1.buffers_list();
        append_copies(&mut list, &rest);
        proof {
            let head = seq![self.0@.buffers];
            let tail = buffer_lists(self.1.sets_spec());
            assert(buffer_lists(self.sets_spec()) =~= head + tail);
            lemma_concat_append(head, tail);
            lemma_concat_one(self.0@.buffers);
        }
        list
    }

    fn images_list(&self) -> (list: Vec<ImageHandle>) {
        let mut list = self.0.referenced_images();
        let rest = self.1.images_list();
        append_copies(&mut list, &rest);
        proof {
            let head = seq![self.0@.images];
            let tail = image_lists(self.1.sets_spec());
            assert(image_lists(self.sets_spec()) =~= head + tail);
            lemma_concat_append(head, tail);
            lemma_concat_one(self.0@.images);
        }
        list
    }
}

} // verus!
