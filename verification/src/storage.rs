//! Object storage: what a transaction does to an object, the keys under which
//! object versions are stored, and fetching packages and modules from a store.

use vstd::prelude::*;
use itertools::Itertools;
use crate::base_types::{AccountAddress, ObjectDigest, ObjectID, ObjectRef, SequenceNumber, VersionNumber, SEQUENCE_NUMBER_MAX, SEQUENCE_NUMBER_MIN};

verus! {

/// The digest of a transaction.
#[derive(Clone, Copy)]
pub struct TransactionDigest(pub [u8; 32]);

/// An epoch number.
pub type EpochId = u64;

/// An error reported by a store.
pub struct SuiError {
    pub message: String,
}

/// How a transaction wrote an object.
#[derive(Clone, Copy, Debug, PartialEq, Eq, Structural)]
pub enum WriteKind {
    /// The object was in storage already but has been modified.
    Mutate,
    /// The object was created in this transaction.
    Create,
    /// The object was previously wrapped in another object, but has been
    /// restored to storage.
    Unwrap,
}

/// How a transaction deleted an object.
#[derive(Clone, Copy, Debug, PartialEq, Eq, Structural)]
pub enum DeleteKind {
    /// An object is provided in the call input, and gets deleted.
    Normal,
    /// An object is not provided in the call input, but gets unwrapped from
    /// another object, and then gets deleted.
    UnwrapThenDelete,
    /// An object is provided in the call input, and gets wrapped into another
    /// object.
    Wrap,
}

impl DeleteKind {
    /// The name of the kind of deletion.
    pub fn name(&self) -> (r: &'static str)
        ensures
            *self == DeleteKind::Wrap ==> r@ == "Wrap"@,
            *self == DeleteKind::Normal ==> r@ == "Normal"@,
            *self == DeleteKind::UnwrapThenDelete ==> r@ == "UnwrapThenDelete"@,
    {
        match self {
            DeleteKind::Wrap => "Wrap",
            DeleteKind::Normal => "Normal",
            DeleteKind::UnwrapThenDelete => "UnwrapThenDelete",
        }
    }
}

/// What remains of an object at a version after a transaction.
#[derive(Clone, Copy)]
pub enum MarkerValue {
    /// The object was received at the given version and can no longer be
    /// received at that version.
    Received,
    /// An owned object was deleted (or wrapped) at the given version.
    OwnedDeleted,
    /// A shared object was deleted by the transaction.
    SharedDeleted(TransactionDigest),
}

/// A deletion, with the version of the object before it where known.
#[derive(Clone, Copy, Debug, PartialEq, Eq, Structural)]
pub enum DeleteKindWithOldVersion {
    Normal(SequenceNumber),
    /// Will be deprecated when simplified unwrap-then-delete is turned on.
    UnwrapThenDeleteDEPRECATED(SequenceNumber),
    UnwrapThenDelete,
    Wrap(SequenceNumber),
}

impl DeleteKindWithOldVersion {
    /// The version of the object before the deletion, where known.
    pub fn old_version(&self) -> (r: Option<SequenceNumber>)
        ensures
            r == match *self {
                DeleteKindWithOldVersion::Normal(v) => Some(v),
                DeleteKindWithOldVersion::UnwrapThenDeleteDEPRECATED(v) => Some(v),
                DeleteKindWithOldVersion::Wrap(v) => Some(v),
                DeleteKindWithOldVersion::UnwrapThenDelete => None,
            },
    {
        match self {
            DeleteKindWithOldVersion::Normal(version)
            | DeleteKindWithOldVersion::UnwrapThenDeleteDEPRECATED(version)
            | DeleteKindWithOldVersion::Wrap(version) => Some(*version),
            DeleteKindWithOldVersion::UnwrapThenDelete => None,
        }
    }

    /// The kind of deletion, without the version.
    pub fn to_delete_kind(&self) -> (r: DeleteKind)
        ensures
            r == match *self {
                DeleteKindWithOldVersion::Normal(_) => DeleteKind::Normal,
                DeleteKindWithOldVersion::UnwrapThenDeleteDEPRECATED(_) => DeleteKind::UnwrapThenDelete,
                DeleteKindWithOldVersion::UnwrapThenDelete => DeleteKind::UnwrapThenDelete,
                DeleteKindWithOldVersion::Wrap(_) => DeleteKind::Wrap,
            },
    {
        match self {
            DeleteKindWithOldVersion::Normal(_) => DeleteKind::Normal,
            DeleteKindWithOldVersion::UnwrapThenDeleteDEPRECATED(_)
            | DeleteKindWithOldVersion::UnwrapThenDelete => DeleteKind::UnwrapThenDelete,
            DeleteKindWithOldVersion::Wrap(_) => DeleteKind::Wrap,
        }
    }
}

/// A Move package: its modules, serialized, by name. No two modules of a
/// package share a name (`MovePackage::well_formed`).
pub struct MovePackage {
    pub id: ObjectID,
    pub version: SequenceNumber,
    pub module_map: Vec<(String, Vec<u8>)>,
}

/// A Move object: its type and its serialized contents.
pub struct MoveObject {
    pub type_tag: String,
    pub version: SequenceNumber,
    pub contents: Vec<u8>,
}

/// The contents of an object.
pub enum Data {
    Move(MoveObject),
    Package(MovePackage),
}

/// An object of the store.
pub struct Object {
    pub data: Data,
    pub previous_transaction: TransactionDigest,
}

/// A change that a transaction makes to an object.
pub enum ObjectChange {
    Write(Object, WriteKind),
    /// The kind of deletion, with the old version where known.
    Delete(DeleteKindWithOldVersion),
}

/// The primary key of object storage: an object and a version, ordered by
/// the object's identifier and then by the version (`key_lt` on views).
#[derive(Clone, Copy, Debug, PartialEq, Eq, PartialOrd, Ord, Hash)]
pub struct ObjectKey(pub ObjectID, pub VersionNumber);

impl View for ObjectKey {
    type V = (Seq<u8>, u64);

    open spec fn view(&self) -> (Seq<u8>, u64) {
        (self.0@, self.1)
    }
}

impl ObjectKey {
    /// The key of the zero object at the lowest version.
    pub fn zero() -> (r: Self)
        ensures
            r@ == (Seq::new(32, |i: int| 0u8), SEQUENCE_NUMBER_MIN),
    {
        let r = ObjectKey(ObjectID(AccountAddress([0u8; 32])), SEQUENCE_NUMBER_MIN);
        assert(r@.0 =~= Seq::new(32, |i: int| 0u8));
        r
    }

    /// The key of an object at the highest valid version,
    /// `SEQUENCE_NUMBER_MAX`: above every key of the object at a valid
    /// version.
    pub fn max_for_id(id: &ObjectID) -> (r: Self)
        ensures
            r@ == (id@, SEQUENCE_NUMBER_MAX),
    {
        ObjectKey(*id, SEQUENCE_NUMBER_MAX)
    }

    /// The key of an object at the lowest version, `SEQUENCE_NUMBER_MIN`.
    pub fn min_for_id(id: &ObjectID) -> (r: Self)
        ensures
            r@ == (id@, SEQUENCE_NUMBER_MIN),
    {
        ObjectKey(*id, SEQUENCE_NUMBER_MIN)
    }

    /// The key of a referenced object version.
    pub fn from_object_ref(object_ref: &ObjectRef) -> (r: Self)
        ensures
            r@ == (object_ref.0@, object_ref.1),
    {
        ObjectKey(object_ref.0, object_ref.1)
    }
}

impl From<ObjectRef> for ObjectKey {
    fn from(object_ref: ObjectRef) -> (r: Self) {
        ObjectKey(object_ref.0, object_ref.1)
    }
}

impl vstd::std_specs::convert::FromSpecImpl<ObjectRef> for ObjectKey {
    open spec fn obeys_from_spec() -> bool {
        true
    }

    open spec fn from_spec(object_ref: ObjectRef) -> Self {
        ObjectKey(object_ref.0, object_ref.1)
    }
}

/// Lexicographic order of byte strings: `a` comes before `b` where they first
/// differ at a smaller byte, or where `a` is a proper prefix of `b`.
pub open spec fn bytes_lt(a: Seq<u8>, b: Seq<u8>) -> bool {
    ||| exists|i: int| 0 <= i < a.len() && i < b.len() && a.take(i) == b.take(i) && #[trigger] a[i] < b[i]
    ||| (a.len() < b.len() && a == b.take(a.len() as int))
}

/// The order of object keys, by their views: by identifier first, then by
/// version.
pub open spec fn key_lt(a: (Seq<u8>, u64), b: (Seq<u8>, u64)) -> bool {
    bytes_lt(a.0, b.0) || (a.0 == b.0 && a.1 < b.1)
}

/// The order of object keys, equal keys included.
pub open spec fn key_le(a: (Seq<u8>, u64), b: (Seq<u8>, u64)) -> bool {
    key_lt(a, b) || a == b
}

/// The keys of an object lie between the key at its lowest version and the
/// key at its highest valid version, and the latter comes before every key
/// of an object with a greater identifier.
pub proof fn lemma_object_key_bounds(id: ObjectID, version: VersionNumber, other: ObjectID, other_version: VersionNumber)
    requires
        version <= SEQUENCE_NUMBER_MAX,
    ensures
        key_le((id@, SEQUENCE_NUMBER_MIN), (id@, version)),
        key_le((id@, version), (id@, SEQUENCE_NUMBER_MAX)),
        key_le((id@, SEQUENCE_NUMBER_MIN), (id@, SEQUENCE_NUMBER_MAX)),
        bytes_lt(id@, other@) ==> key_lt((id@, SEQUENCE_NUMBER_MAX), (other@, other_version)),
{
}

/// The views of a list of keys.
pub open spec fn key_views(keys: Seq<ObjectKey>) -> Seq<(Seq<u8>, u64)> {
    keys.map_values(|k: ObjectKey| k@)
}

/// The keys named by a list of object references.
pub open spec fn ref_keys(refs: Seq<ObjectRef>) -> Seq<(Seq<u8>, u64)> {
    refs.map_values(|o: ObjectRef| (o.0@, o.1))
}

/// The kind of an input object of a transaction.
#[derive(Clone, Copy)]
pub enum InputObjectKind {
    /// A Move package.
    MovePackage(ObjectID),
    /// A Move object, either immutable or address-owned.
    ImmOrOwnedMoveObject(ObjectRef),
    /// A shared Move object.
    SharedMoveObject { id: ObjectID, initial_shared_version: SequenceNumber, mutable: bool },
}

/// The key of an input object that is stored by version: owned and
/// immutable objects have one, packages and shared objects do not.
pub open spec fn input_object_key(kind: InputObjectKind) -> Option<(Seq<u8>, u64)> {
    match kind {
        InputObjectKind::ImmOrOwnedMoveObject(r) => Some((r.0@, r.1)),
        _ => None,
    }
}

/// The keys (identifiers and versions) of the non-shared input objects of a
/// transaction: owned and immutable objects including the gas objects, but
/// not packages or shared objects. An error in reading the inputs is passed on.
pub fn transaction_input_object_keys(input_objects: Result<Vec<InputObjectKind>, SuiError>) -> (r: Result<
    Vec<ObjectKey>,
    SuiError,
>)
    ensures
        match input_objects {
            Ok(objs) => r matches Ok(keys) && key_views(keys@) == objs@.filter_map(
                |o: InputObjectKind| input_object_key(o),
            ),
            Err(e) => r == Err::<Vec<ObjectKey>, SuiError>(e),
        },
{
    let objects = match input_objects {
        Ok(objs) => objs,
        Err(e) => return Err(e),
    };
    let ghost f = |o: InputObjectKind| input_object_key(o);
    let mut keys: Vec<ObjectKey> = Vec::new();
    let mut i: usize = 0;
    while i < objects.len()
        invariant
            i <= objects.len(),
            key_views(keys@) == objects@.take(i as int).filter_map(f),
            f == (|o: InputObjectKind| input_object_key(o)),
        decreases objects.len() - i,
    {
        proof {
            objects@.lemma_filter_map_take_succ(f, i as int);
        }
        match objects[i] {
            InputObjectKind::ImmOrOwnedMoveObject(obj) => {
                keys.push(ObjectKey::from_object_ref(&obj));
            },
            _ => {},
        }
        i = i + 1;
        assert(key_views(keys@) =~= objects@.take(i as int).filter_map(f));
    }
    assert(objects@.take(i as int) =~= objects@);
    Ok(keys)
}

/// The keys of the objects that a transaction receives.
pub fn transaction_receiving_object_keys(receiving_objects: &Vec<ObjectRef>) -> (r: Vec<ObjectKey>)
    ensures
        key_views(r@) == ref_keys(receiving_objects@),
{
    let mut keys: Vec<ObjectKey> = Vec::new();
    let mut i: usize = 0;
    while i < receiving_objects.len()
        invariant
            i <= receiving_objects.len(),
            keys@.len() == i,
            key_views(keys@) == ref_keys(receiving_objects@.take(i as int)),
        decreases receiving_objects.len() - i,
    {
        let k = ObjectKey::from_object_ref(&receiving_objects[i]);
        let ghost before = keys@;
        keys.push(k);
        assert(keys@ == before.push(k));
        assert(receiving_objects@.take(i + 1) =~= receiving_objects@.take(i as int).push(receiving_objects@[i as int]));
        i = i + 1;
        assert forall|j: int| 0 <= j < i implies #[trigger] key_views(keys@)[j] == ref_keys(
            receiving_objects@.take(i as int),
        )[j] by {
            assert(key_views(keys@)[j] == keys@[j]@);
            assert(ref_keys(receiving_objects@.take(i as int))[j] == (
            receiving_objects@[j].0@,
            receiving_objects@[j].1,
            ));
            if j < i - 1 {
                assert(keys@[j] == before[j]);
                assert(key_views(before)[j] == before[j]@);
                assert(ref_keys(receiving_objects@.take(i - 1))[j] == (
                receiving_objects@[j].0@,
                receiving_objects@[j].1,
                ));
            }
        }
        assert(key_views(keys@) =~= ref_keys(receiving_objects@.take(i as int)));
    }
    assert(receiving_objects@.take(i as int) =~= receiving_objects@);
    keys
}

} // verus!

verus! {

/// The packages found, or the identifiers of the packages not found.
pub type PackageFetchResults<Package> = Result<Vec<Package>, Vec<ObjectID>>;

/// A store of packages. Implemented by the node's stores; what a lookup
/// returns depends on the store's contents.
pub trait BackingPackageStore {
    /// The object stored under `package_id`, if any.
    fn get_package_object(&self, package_id: &ObjectID) -> Result<Option<Object>, SuiError>;

    /// The package stored under `package_id`, if any: by default, what the
    /// store holds under `package_id` where that is a package.
    fn get_package(&self, package_id: &ObjectID) -> (r: Result<Option<MovePackage>, SuiError>)
        default_ensures
            exists|found: Result<Option<Object>, SuiError>|
                call_ensures(Self::get_package_object, (self, package_id), found) && r
                    == package_lookup(found),
    {
        package_of(self.get_package_object(package_id))
    }
}

/// A store of child objects.
pub trait ChildObjectResolver {
    /// The child object, which must be owned by `parent`, at or below the
    /// version bound.
    fn read_child_object(
        &self,
        parent: &ObjectID,
        child: &ObjectID,
        child_version_upper_bound: SequenceNumber,
    ) -> Result<Option<Object>, SuiError>;

    /// The object that `owner` receives at exactly the given version, if it
    /// exists and has not been received at that version before.
    fn get_object_received_at_version(
        &self,
        owner: &ObjectID,
        receiving_object_id: &ObjectID,
        receive_object_at_version: SequenceNumber,
        epoch_id: EpochId,
    ) -> Result<Option<Object>, SuiError>;
}

/// A store that knows the latest version of parent objects.
pub trait ParentSync {
    /// Only called by older protocol versions.
    fn get_latest_parent_entry_ref_deprecated(&self, object_id: ObjectID) -> Result<
        Option<ObjectRef>,
        SuiError,
    >;
}

/// A store of received-object markers.
pub trait ReceivedMarkerQuery {
    fn have_received_object_at_version(
        &self,
        object_id: &ObjectID,
        version: VersionNumber,
        epoch_id: EpochId,
    ) -> Result<bool, SuiError>;
}

/// A store of the versions that a transaction locked its shared objects at.
pub trait GetSharedLocks {
    fn get_shared_locks(&self, transaction_digest: &TransactionDigest) -> Result<
        Vec<(ObjectID, SequenceNumber)>,
        SuiError,
    >;
}

/// A store of objects that a transaction reads and writes.
pub trait Storage {
    /// Forgets the writes made so far.
    fn reset(&mut self);

    /// The object stored under `id`, if any.
    fn read_object(&self, id: &ObjectID) -> Option<&Object>;
}

/// A store that execution reads objects, parents and children from.
pub trait StorageView: Storage + ParentSync + ChildObjectResolver {}

impl<T: Storage + ParentSync + ChildObjectResolver> StorageView for T {}

impl<S: BackingPackageStore> BackingPackageStore for std::sync::Arc<S> {
    fn get_package_object(&self, package_id: &ObjectID) -> (r: Result<Option<Object>, SuiError>)
        ensures
            call_ensures(S::get_package_object, (&**self, package_id), r),
    {
        (**self).get_package_object(package_id)
    }
}

impl<S: BackingPackageStore> BackingPackageStore for &S {
    fn get_package_object(&self, package_id: &ObjectID) -> (r: Result<Option<Object>, SuiError>)
        ensures
            call_ensures(S::get_package_object, (*self, package_id), r),
    {
        (**self).get_package_object(package_id)
    }
}

impl<S: ParentSync> ParentSync for std::sync::Arc<S> {
    fn get_latest_parent_entry_ref_deprecated(&self, object_id: ObjectID) -> (r: Result<
        Option<ObjectRef>,
        SuiError,
    >)
        ensures
            call_ensures(S::get_latest_parent_entry_ref_deprecated, (&**self, object_id), r),
    {
        (**self).get_latest_parent_entry_ref_deprecated(object_id)
    }
}

impl<S: ParentSync> ParentSync for &S {
    fn get_latest_parent_entry_ref_deprecated(&self, object_id: ObjectID) -> (r: Result<
        Option<ObjectRef>,
        SuiError,
    >)
        ensures
            call_ensures(S::get_latest_parent_entry_ref_deprecated, (*self, object_id), r),
    {
        (**self).get_latest_parent_entry_ref_deprecated(object_id)
    }
}

impl<S: ChildObjectResolver> ChildObjectResolver for std::sync::Arc<S> {
    fn read_child_object(
        &self,
        parent: &ObjectID,
        child: &ObjectID,
        child_version_upper_bound: SequenceNumber,
    ) -> (r: Result<Option<Object>, SuiError>)
        ensures
            call_ensures(S::read_child_object, (&**self, parent, child, child_version_upper_bound), r),
    {
        (**self).read_child_object(parent, child, child_version_upper_bound)
    }

    fn get_object_received_at_version(
        &self,
        owner: &ObjectID,
        receiving_object_id: &ObjectID,
        receive_object_at_version: SequenceNumber,
        epoch_id: EpochId,
    ) -> (r: Result<Option<Object>, SuiError>)
        ensures
            call_ensures(
                S::get_object_received_at_version,
                (&**self, owner, receiving_object_id, receive_object_at_version, epoch_id),
                r,
            ),
    {
        (**self).get_object_received_at_version(
            owner,
            receiving_object_id,
            receive_object_at_version,
            epoch_id,
        )
    }
}

impl<S: ChildObjectResolver> ChildObjectResolver for &S {
    fn read_child_object(
        &self,
        parent: &ObjectID,
        child: &ObjectID,
        child_version_upper_bound: SequenceNumber,
    ) -> (r: Result<Option<Object>, SuiError>)
        ensures
            call_ensures(S::read_child_object, (*self, parent, child, child_version_upper_bound), r),
    {
        (**self).read_child_object(parent, child, child_version_upper_bound)
    }

    fn get_object_received_at_version(
        &self,
        owner: &ObjectID,
        receiving_object_id: &ObjectID,
        receive_object_at_version: SequenceNumber,
        epoch_id: EpochId,
    ) -> (r: Result<Option<Object>, SuiError>)
        ensures
            call_ensures(
                S::get_object_received_at_version,
                (*self, owner, receiving_object_id, receive_object_at_version, epoch_id),
                r,
            ),
    {
        (**self).get_object_received_at_version(
            owner,
            receiving_object_id,
            receive_object_at_version,
            epoch_id,
        )
    }
}

impl<T: ReceivedMarkerQuery> ReceivedMarkerQuery for std::sync::Arc<T> {
    fn have_received_object_at_version(
        &self,
        object_id: &ObjectID,
        version: VersionNumber,
        epoch_id: EpochId,
    ) -> (r: Result<bool, SuiError>)
        ensures
            call_ensures(T::have_received_object_at_version, (&**self, object_id, version, epoch_id), r),
    {
        (**self).have_received_object_at_version(object_id, version, epoch_id)
    }
}

impl<T: ReceivedMarkerQuery> ReceivedMarkerQuery for &T {
    fn have_received_object_at_version(
        &self,
        object_id: &ObjectID,
        version: VersionNumber,
        epoch_id: EpochId,
    ) -> (r: Result<bool, SuiError>)
        ensures
            call_ensures(T::have_received_object_at_version, (*self, object_id, version, epoch_id), r),
    {
        (**self).have_received_object_at_version(object_id, version, epoch_id)
    }
}

/// The package that an object holds, if it holds one.
pub open spec fn object_package(o: Object) -> Option<MovePackage> {
    match o.data {
        Data::Package(p) => Some(p),
        Data::Move(_) => None,
    }
}

/// What a lookup gives as a package: the lookup's error, or the package
/// that the object found holds, if it holds one.
pub open spec fn package_lookup(found: Result<Option<Object>, SuiError>) -> Result<Option<MovePackage>, SuiError> {
    match found {
        Ok(Some(o)) => Ok(object_package(o)),
        Ok(None) => Ok(None),
        Err(e) => Err(e),
    }
}

/// The package found by a lookup, where the object found is a package.
pub fn package_of(found: Result<Option<Object>, SuiError>) -> (r: Result<Option<MovePackage>, SuiError>)
    ensures
        r == package_lookup(found),
{
    match found {
        Ok(Some(o)) => match o.data {
            Data::Package(p) => Ok(Some(p)),
            Data::Move(_) => Ok(None),
        },
        Ok(None) => Ok(None),
        Err(e) => Err(e),
    }
}

/// The first error among the lookups, if any.
pub open spec fn first_error(results: Seq<Result<Option<Object>, SuiError>>) -> Option<SuiError>
    decreases results.len(),
{
    if results.len() == 0 {
        None
    } else if results[0] is Err {
        Some(results[0]->Err_0)
    } else {
        first_error(results.skip(1))
    }
}

/// A lookup as a found object or as the identifier of a package not found.
pub open spec fn fetch_entry(id: ObjectID, r: Result<Option<Object>, SuiError>) -> Result<Object, ObjectID> {
    match r {
        Ok(Some(o)) => Ok(o),
        _ => Err(id),
    }
}

/// The successes of a list of results, in order.
pub open spec fn oks<T, E>(s: Seq<Result<T, E>>) -> Seq<T> {
    s.filter_map(|x: Result<T, E>| match x {
        Ok(t) => Some(t),
        Err(_) => None,
    })
}

/// The failures of a list of results, in order.
pub open spec fn errs<T, E>(s: Seq<Result<T, E>>) -> Seq<E> {
    s.filter_map(|x: Result<T, E>| match x {
        Ok(_) => None,
        Err(e) => Some(e),
    })
}

/// Splits results into their successes and their failures, each in order
/// (`Itertools::partition_result`).
#[verifier::external_body]
fn partition_result<T, E>(v: Vec<Result<T, E>>) -> (r: (Vec<T>, Vec<E>))
    ensures
        r.0@ == oks(v@),
        r.1@ == errs(v@),
{
    v.into_iter().partition_result()
}

/// What fetching the packages `ids` gives, from the store's answers to the
/// lookups in order: the first error, if any; else the packages not found,
/// if any; else the objects found.
pub open spec fn package_fetch_outcome(
    ids: Seq<ObjectID>,
    results: Seq<Result<Option<Object>, SuiError>>,
) -> Result<Result<Seq<Object>, Seq<ObjectID>>, SuiError> {
    match first_error(results) {
        Some(e) => Err(e),
        None => {
            let entries = Seq::new(results.len(), |i: int| fetch_entry(ids[i], results[i]));
            if errs(entries).len() > 0 {
                Ok(Err(errs(entries)))
            } else {
                Ok(Ok(oks(entries)))
            }
        },
    }
}

proof fn lemma_first_error_push(results: Seq<Result<Option<Object>, SuiError>>, r: Result<Option<Object>, SuiError>)
    ensures
        first_error(results.push(r)) == match first_error(results) {
            Some(e) => Some(e),
            None => if r is Err {
                Some(r->Err_0)
            } else {
                None
            },
        },
    decreases results.len(),
{
    if results.len() > 0 {
        assert(results.push(r)[0] == results[0]);
        assert(results.push(r).skip(1) =~= results.skip(1).push(r));
        lemma_first_error_push(results.skip(1), r);
    } else {
        assert(results.push(r)[0] == r);
        assert(results.push(r).skip(1) =~= Seq::<Result<Option<Object>, SuiError>>::empty());
        assert(first_error(Seq::<Result<Option<Object>, SuiError>>::empty()) is None);
        assert(first_error(results) is None);
    }
}

/// Gathers the store's answers to the lookups of `ids`, in order, into the
/// objects found or the identifiers not found; the first error, if any, is
/// passed on.
pub fn collect_package_fetches(ids: &Vec<ObjectID>, results: Vec<Result<Option<Object>, SuiError>>) -> (r: Result<
    PackageFetchResults<Object>,
    SuiError,
>)
    requires
        results.len() <= ids.len(),
    ensures
        match r {
            Ok(Ok(objs)) => package_fetch_outcome(ids@, results@) == Ok::<
                Result<Seq<Object>, Seq<ObjectID>>,
                SuiError,
            >(Ok(objs@)),
            Ok(Err(missing)) => package_fetch_outcome(ids@, results@) == Ok::<
                Result<Seq<Object>, Seq<ObjectID>>,
                SuiError,
            >(Err(missing@)),
            Err(e) => package_fetch_outcome(ids@, results@) == Err::<
                Result<Seq<Object>, Seq<ObjectID>>,
                SuiError,
            >(e),
        },
{
    let ghost rs = results@;
    let n = results.len();
    let mut q = crate::consensus::mode::into_queue(results);
    let mut entries: Vec<Result<Object, ObjectID>> = Vec::new();
    let mut i: usize = 0;
    let mut failure: Option<SuiError> = None;
    assert(rs.take(0) =~= Seq::<Result<Option<Object>, SuiError>>::empty());
    while q.len() > 0
        invariant_except_break
            failure is None,
            i + q@.len() == rs.len(),
        invariant
            failure is Some ==> first_error(rs) == failure,
            failure is None ==> q@ == rs.skip(i as int),
            i <= rs.len(),
            rs.len() == n,
            n <= ids.len(),
            failure is None ==> first_error(rs.take(i as int)) is None,
            failure is None ==> entries@ == Seq::new(i as nat, |j: int| fetch_entry(ids@[j], rs[j])),
        ensures
            failure is Some ==> first_error(rs) == failure,
            failure is None ==> i == rs.len() && first_error(rs.take(i as int)) is None
                && entries@ == Seq::new(i as nat, |j: int| fetch_entry(ids@[j], rs[j])),
        decreases q.len(),
    {
        let item = q.pop_front().unwrap();
        assert(item == rs[i as int]);
        proof {
            assert(rs.take(i + 1) =~= rs.take(i as int).push(item));
            lemma_first_error_push(rs.take(i as int), item);
        }
        match item {
            Err(e) => {
                proof {
                    assert(first_error(rs.take(i + 1)) == Some(e));
                    lemma_first_error_prefix(rs, i as int + 1);
                    assert(first_error(rs) == Some(e));
                }
                failure = Some(e);
                break;
            },
            Ok(Some(o)) => {
                entries.push(Ok(o));
            },
            Ok(None) => {
                entries.push(Err(ids[i]));
            },
        }
        i = i + 1;
        assert(entries@ =~= Seq::new(i as nat, |j: int| fetch_entry(ids@[j], rs[j])));
        assert(q@ =~= rs.skip(i as int));
    }
    if let Some(e) = failure {
        return Err(e);
    }
    assert(rs.take(i as int) =~= rs);
    let (fetched, failed) = partition_result(entries);
    if failed.len() > 0 {
        Ok(Err(failed))
    } else {
        Ok(Ok(fetched))
    }
}

proof fn lemma_first_error_prefix(rs: Seq<Result<Option<Object>, SuiError>>, k: int)
    requires
        0 <= k <= rs.len(),
        first_error(rs.take(k)) is Some,
    ensures
        first_error(rs) == first_error(rs.take(k)),
    decreases k,
{
    if k > 0 && rs.len() > 0 {
        if rs[0] is Err {
        } else {
            assert(rs.take(k).skip(1) =~= rs.skip(1).take(k - 1));
            lemma_first_error_prefix(rs.skip(1), k - 1);
        }
    }
}

/// Whether `results` are the store's answers to lookups of `ids` made in
/// order, one per identifier, up to and including the first error: each is
/// an answer that `store` can give for its identifier, all but the last are
/// successes, and the lookups end either at the last identifier or at an
/// error.
pub open spec fn asked_in_order<S: BackingPackageStore>(
    store: &S,
    ids: Seq<ObjectID>,
    results: Seq<Result<Option<Object>, SuiError>>,
) -> bool {
    &&& results.len() <= ids.len()
    &&& forall|i: int|
        0 <= i < results.len() ==> call_ensures(S::get_package_object, (store, &ids[i]), #[trigger] results[i])
    &&& forall|i: int| 0 <= i < results.len() - 1 ==> #[trigger] results[i] is Ok
    &&& (results.len() == ids.len() || (results.len() > 0 && results.last() is Err))
}

/// The first error is the error of the earliest failed lookup: where it is
/// `Some(e)`, some lookup failed with `e` and every lookup before it
/// succeeded; where it is `None`, every lookup succeeded.
pub proof fn lemma_first_error_is_earliest(results: Seq<Result<Option<Object>, SuiError>>)
    ensures
        first_error(results) matches Some(e) ==> exists|i: int|
            0 <= i < results.len() && results[i] == Err::<Option<Object>, SuiError>(e) && forall|j: int|
                0 <= j < i ==> #[trigger] results[j] is Ok,
        first_error(results) is None <==> forall|j: int| 0 <= j < results.len() ==> #[trigger] results[j] is Ok,
    decreases results.len(),
{
    if results.len() > 0 {
        let rest = results.skip(1);
        lemma_first_error_is_earliest(rest);
        assert forall|j: int| 1 <= j < results.len() implies results[j] == rest[j - 1] by {}
        if !(results[0] is Err) {
            if let Some(e) = first_error(rest) {
                let i = choose|i: int|
                    0 <= i < rest.len() && rest[i] == Err::<Option<Object>, SuiError>(e) && forall|j: int|
                        0 <= j < i ==> #[trigger] rest[j] is Ok;
                assert(results[i + 1] == rest[i]);
                assert forall|j: int| 0 <= j < i + 1 implies #[trigger] results[j] is Ok by {
                    if j > 0 {
                        assert(results[j] == rest[j - 1]);
                    }
                }
            }
            if forall|j: int| 0 <= j < results.len() ==> #[trigger] results[j] is Ok {
                assert forall|j: int| 0 <= j < rest.len() implies #[trigger] rest[j] is Ok by {
                    assert(rest[j] == results[j + 1]);
                }
            }
        } else {
            assert(results[0] == Err::<Option<Object>, SuiError>(results[0]->Err_0));
        }
    }
}

/// Where no result failed, the successes are all the results, in order.
proof fn lemma_oks_without_errs<T, E>(s: Seq<Result<T, E>>)
    requires
        errs(s).len() == 0,
    ensures
        oks(s).len() == s.len(),
        forall|i: int| 0 <= i < s.len() ==> #[trigger] s[i] == Ok::<T, E>(oks(s)[i]),
    decreases s.len(),
{
    reveal_with_fuel(Seq::filter_map, 1);
    if s.len() > 0 {
        let rest = s.drop_last();
        if s.last() is Err {
            assert(errs(s) =~= errs(rest) + seq![s.last()->Err_0]);
        } else {
            assert(errs(s) =~= errs(rest));
            lemma_oks_without_errs(rest);
            assert(oks(s) =~= oks(rest) + seq![s.last()->Ok_0]);
            assert forall|i: int| 0 <= i < s.len() implies #[trigger] s[i] == Ok::<T, E>(oks(s)[i]) by {
                if i < rest.len() {
                    assert(s[i] == rest[i]);
                }
            }
        }
    }
}

/// Every failure among results is the failure of one of them.
proof fn lemma_errs_come_from(s: Seq<Result<Object, ObjectID>>, k: int)
    requires
        0 <= k < errs(s).len(),
    ensures
        exists|i: int| 0 <= i < s.len() && s[i] == Err::<Object, ObjectID>(errs(s)[k]),
    decreases s.len(),
{
    reveal_with_fuel(Seq::filter_map, 1);
    let rest = s.drop_last();
    if s.last() is Err && k == errs(s).len() - 1 {
        assert(errs(s) =~= errs(rest) + seq![s.last()->Err_0]);
        assert(s[s.len() - 1] == Err::<Object, ObjectID>(errs(s)[k]));
    } else {
        if s.last() is Err {
            assert(errs(s) =~= errs(rest) + seq![s.last()->Err_0]);
        } else {
            assert(errs(s) =~= errs(rest));
        }
        assert(errs(s)[k] == errs(rest)[k]);
        lemma_errs_come_from(rest, k);
        let i = choose|i: int| 0 <= i < rest.len() && rest[i] == Err::<Object, ObjectID>(errs(rest)[k]);
        assert(s[i] == rest[i]);
    }
}

/// What fetching packages gives, read back against the lookups: an error is
/// that of the earliest failed lookup, with every lookup before it
/// successful; the objects come back only where every lookup found one, and
/// then exactly those objects, in order; and the identifiers that come back
/// are each one whose lookup found nothing, at least one of them.
pub proof fn lemma_package_fetch_outcome(ids: Seq<ObjectID>, results: Seq<Result<Option<Object>, SuiError>>)
    requires
        results.len() <= ids.len(),
    ensures
        package_fetch_outcome(ids, results) matches Err(e) ==> exists|i: int|
            0 <= i < results.len() && results[i] == Err::<Option<Object>, SuiError>(e) && forall|j: int|
                0 <= j < i ==> #[trigger] results[j] is Ok,
        package_fetch_outcome(ids, results) matches Ok(Ok(objs)) ==> objs.len() == results.len() && forall|i: int|
            0 <= i < results.len() ==> #[trigger] results[i] == Ok::<Option<Object>, SuiError>(Some(objs[i])),
        package_fetch_outcome(ids, results) matches Ok(Err(missing)) ==> missing.len() > 0 && forall|k: int|
            0 <= k < missing.len() ==> exists|i: int|
                0 <= i < results.len() && ids[i] == #[trigger] missing[k] && results[i]
                    == Ok::<Option<Object>, SuiError>(None),
{
    lemma_first_error_is_earliest(results);
    if first_error(results) is None {
        let entries = Seq::new(results.len(), |i: int| fetch_entry(ids[i], results[i]));
        if errs(entries).len() == 0 {
            lemma_oks_without_errs(entries);
            assert forall|i: int| 0 <= i < results.len() implies #[trigger] results[i]
                == Ok::<Option<Object>, SuiError>(Some(oks(entries)[i])) by {
                assert(entries[i] == Ok::<Object, ObjectID>(oks(entries)[i]));
                assert(results[i] is Ok);
            }
        } else {
            let missing = errs(entries);
            assert forall|k: int| 0 <= k < missing.len() implies exists|i: int|
                0 <= i < results.len() && ids[i] == #[trigger] missing[k] && results[i]
                    == Ok::<Option<Object>, SuiError>(None) by {
                lemma_errs_come_from(entries, k);
                let i = choose|i: int| 0 <= i < entries.len() && entries[i] == Err::<Object, ObjectID>(errs(entries)[k]);
                assert(results[i] is Ok);
                assert(ids[i] == missing[k]);
            }
        }
    }
}

/// Fetches the package objects named by `package_ids` from `store`, asking
/// the store for each identifier in order and stopping at the first error.
/// The objects found come back if all were found, else the identifiers of
/// those not found; the first error is passed on.
pub fn get_package_objects<S: BackingPackageStore>(store: &S, package_ids: &Vec<ObjectID>) -> (r: Result<
    PackageFetchResults<Object>,
    SuiError,
>)
    ensures
        exists|results: Seq<Result<Option<Object>, SuiError>>|
            #[trigger] asked_in_order(store, package_ids@, results) && match r {
                Ok(Ok(objs)) => package_fetch_outcome(package_ids@, results) == Ok::<
                    Result<Seq<Object>, Seq<ObjectID>>,
                    SuiError,
                >(Ok(objs@)),
                Ok(Err(missing)) => package_fetch_outcome(package_ids@, results) == Ok::<
                    Result<Seq<Object>, Seq<ObjectID>>,
                    SuiError,
                >(Err(missing@)),
                Err(e) => package_fetch_outcome(package_ids@, results) == Err::<
                    Result<Seq<Object>, Seq<ObjectID>>,
                    SuiError,
                >(e),
            },
{
    let mut results: Vec<Result<Option<Object>, SuiError>> = Vec::new();
    let mut i: usize = 0;
    let mut stopped = false;
    while i < package_ids.len() && !stopped
        invariant
            i <= package_ids.len(),
            results.len() == i,
            forall|j: int|
                0 <= j < i ==> call_ensures(S::get_package_object, (store, &package_ids@[j]), #[trigger] results@[j]),
            forall|j: int| 0 <= j < i - 1 ==> #[trigger] results@[j] is Ok,
            !stopped ==> forall|j: int| 0 <= j < i ==> #[trigger] results@[j] is Ok,
            stopped ==> i > 0 && results@[i - 1] is Err,
        decreases package_ids.len() - i,
    {
        let found = store.get_package_object(&package_ids[i]);
        stopped = found.is_err();
        results.push(found);
        i = i + 1;
    }
    let ghost rs = results@;
    assert(asked_in_order(store, package_ids@, rs));
    collect_package_fetches(package_ids, results)
}

/// A module: the address of its package and its name.
pub struct ModuleId {
    pub address: AccountAddress,
    pub name: String,
}

/// The serialized module named `name` in a module map, if any.
pub open spec fn module_lookup(map: Seq<(String, Vec<u8>)>, name: Seq<char>) -> Option<Seq<u8>>
    decreases map.len(),
{
    if map.len() == 0 {
        None
    } else if map[0].0@ == name {
        Some(map[0].1@)
    } else {
        module_lookup(map.skip(1), name)
    }
}

/// Whether no two entries of a module map share a name.
pub open spec fn module_names_distinct(map: Seq<(String, Vec<u8>)>) -> bool {
    forall|i: int, j: int| 0 <= i < j < map.len() ==> #[trigger] map[i].0@ != #[trigger] map[j].0@
}

impl MovePackage {
    /// A package whose module names are distinct.
    pub open spec fn well_formed(&self) -> bool {
        module_names_distinct(self.module_map@)
    }
}

/// In a module map whose names are distinct, the lookup of a name finds the
/// one module of that name.
pub proof fn lemma_module_lookup_unique(map: Seq<(String, Vec<u8>)>, i: int)
    requires
        module_names_distinct(map),
        0 <= i < map.len(),
    ensures
        module_lookup(map, map[i].0@) == Some(map[i].1@),
    decreases map.len(),
{
    if i > 0 {
        assert(map[0].0@ != map[i].0@);
        assert(map.skip(1)[i - 1] == map[i]);
        assert(module_names_distinct(map.skip(1))) by {
            assert forall|a: int, b: int| 0 <= a < b < map.skip(1).len() implies #[trigger] map.skip(1)[a].0@
                != #[trigger] map.skip(1)[b].0@ by {
                assert(map.skip(1)[a] == map[a + 1] && map.skip(1)[b] == map[b + 1]);
            }
        }
        lemma_module_lookup_unique(map.skip(1), i - 1);
    }
}

/// The lookup of a name that no module has finds nothing.
pub proof fn lemma_module_lookup_absent(map: Seq<(String, Vec<u8>)>, name: Seq<char>)
    requires
        forall|i: int| 0 <= i < map.len() ==> #[trigger] map[i].0@ != name,
    ensures
        module_lookup(map, name) is None,
    decreases map.len(),
{
    if map.len() > 0 {
        assert(map[0].0@ != name);
        assert forall|i: int| 0 <= i < map.skip(1).len() implies #[trigger] map.skip(1)[i].0@ != name by {
            assert(map.skip(1)[i] == map[i + 1]);
        }
        lemma_module_lookup_absent(map.skip(1), name);
    }
}

/// The serialized module of a package with the given name, if any.
pub fn module_of(package: &MovePackage, name: &str) -> (r: Option<Vec<u8>>)
    ensures
        match r {
            Some(bytes) => module_lookup(package.module_map@, name@) == Some(bytes@),
            None => module_lookup(package.module_map@, name@) is None,
        },
{
    let map = &package.module_map;
    let mut i: usize = 0;
    assert(map@.skip(0) =~= map@);
    while i < map.len()
        invariant
            i <= map.len(),
            map@ == package.module_map@,
            module_lookup(map@, name@) == module_lookup(map@.skip(i as int), name@),
        decreases map.len() - i,
    {
        assert(map@.skip(i as int)[0] == map@[i as int]);
        if crate::text::str_eq(map[i].0.as_str(), name) {
            let bytes = crate::bytes::copy_bytes(map[i].1.as_slice());
            assert(bytes@ == map@[i as int].1@);
            return Some(bytes);
        }
        assert(map@.skip(i as int).skip(1) =~= map@.skip(i + 1));
        i = i + 1;
    }
    None
}

/// What a package lookup gives for the module named `name`: the lookup's
/// error, nothing where no package was found, else the package's module of
/// that name, if any.
pub open spec fn module_outcome(found: Result<Option<MovePackage>, SuiError>, name: Seq<char>) -> Result<
    Option<Seq<u8>>,
    SuiError,
> {
    match found {
        Err(e) => Err(e),
        Ok(None) => Ok(None),
        Ok(Some(p)) => Ok(module_lookup(p.module_map@, name)),
    }
}

/// A module lookup's result, with the module's bytes as a sequence.
pub open spec fn module_result_view(r: Result<Option<Vec<u8>>, SuiError>) -> Result<Option<Seq<u8>>, SuiError> {
    match r {
        Ok(Some(bytes)) => Ok(Some(bytes@)),
        Ok(None) => Ok(None),
        Err(e) => Err(e),
    }
}

/// The serialized module named by `module_id` in a package lookup's result.
pub fn module_in(found: Result<Option<MovePackage>, SuiError>, module_id: &ModuleId) -> (r: Result<
    Option<Vec<u8>>,
    SuiError,
>)
    ensures
        module_result_view(r) == module_outcome(found, module_id.name@),
{
    match found {
        Err(e) => Err(e),
        Ok(None) => Ok(None),
        Ok(Some(p)) => Ok(module_of(&p, module_id.name.as_str())),
    }
}

/// The serialized module named by `module_id`, fetched from `store`: the
/// store is asked for the package at the module's address, and its answer
/// decides the result.
pub fn get_module<S: BackingPackageStore>(store: S, module_id: &ModuleId) -> (r: Result<Option<Vec<u8>>, SuiError>)
    ensures
        exists|found: Result<Option<MovePackage>, SuiError>|
            call_ensures(S::get_package, (&store, &ObjectID(module_id.address)), found)
                && module_result_view(r) == module_outcome(found, module_id.name@),
{
    let found = store.get_package(&ObjectID::from_address(module_id.address));
    module_in(found, module_id)
}

} // verus!
