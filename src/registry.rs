//! The registrations this client has made with the server: which region
//! names are registered, of which kind and size, and how the server's answer
//! to a register or unregister call turns into the table's next state.
use vstd::prelude::*;

use crate::cuda_shared_memory::CudaSharedMemoryRegionHandle;
use crate::error::ShmError;
use crate::inference::{CudaSharedMemoryRegisterRequest, SystemSharedMemoryRegisterRequest};
use crate::system_shared_memory::SystemSharedMemoryRegionHandle;

verus! {

/// The gRPC status code of a call that succeeded.
pub const STATUS_OK: i32 = 0;

/// Where a region's memory lives.
#[derive(Debug, Clone, Copy, PartialEq, Eq, Structural)]
pub enum RegionKind {
    Device,
    Host,
}

/// One registration: a region name known to the server, with its kind and
/// byte size.
pub struct Registration {
    pub name: String,
    pub kind: RegionKind,
    pub byte_size: u64,
}

/// The abstract value of one registration.
pub struct RegistrationView {
    pub name: Seq<char>,
    pub kind: RegionKind,
    pub byte_size: nat,
}

impl View for Registration {
    type V = RegistrationView;

    open spec fn view(&self) -> RegistrationView {
        RegistrationView { name: self.name@, kind: self.kind, byte_size: self.byte_size as nat }
    }
}

/// Whether a gRPC status code says that the call never reached a server that
/// could judge it: cancelled, unknown, deadline exceeded, or unavailable.
pub open spec fn is_transport_code(code: i32) -> bool {
    code == 1 || code == 2 || code == 4 || code == 14
}

/// The error that a failed register, unregister or status call reports.
pub open spec fn status_error(code: i32) -> ShmError {
    if is_transport_code(code) {
        ShmError::RpcTransportError
    } else {
        ShmError::RegistrationError
    }
}

/// Whether `name` is registered in `v`.
pub open spec fn is_registered(v: Seq<RegistrationView>, name: Seq<char>) -> bool {
    exists|i: int| 0 <= i < v.len() && #[trigger] v[i].name == name
}

/// `v` without its registrations of `name`, the others in order.
pub open spec fn without(v: Seq<RegistrationView>, name: Seq<char>) -> Seq<RegistrationView>
    decreases v.len(),
{
    if v.len() == 0 {
        v
    } else if v.last().name == name {
        without(v.drop_last(), name)
    } else {
        without(v.drop_last(), name).push(v.last())
    }
}

/// The table after the server answered a register call for `name` with
/// `status`: a name this client registered already is refused before any
/// call; a failed call leaves the table as it was.
pub open spec fn register_result(
    v: Seq<RegistrationView>,
    name: Seq<char>,
    kind: RegionKind,
    byte_size: nat,
    status: i32,
) -> Result<Seq<RegistrationView>, ShmError> {
    if is_registered(v, name) {
        Err(ShmError::RegistrationError)
    } else if status != STATUS_OK {
        Err(status_error(status))
    } else {
        Ok(v.push(RegistrationView { name, kind, byte_size }))
    }
}

/// The table after the server answered an unregister call for `name` with
/// `status`. Unregistering a name that is not registered succeeds.
pub open spec fn unregister_result(v: Seq<RegistrationView>, name: Seq<char>, status: i32) -> Result<
    Seq<RegistrationView>,
    ShmError,
> {
    if status != STATUS_OK {
        Err(status_error(status))
    } else {
        Ok(without(v, name))
    }
}

/// No name occurs twice in `v`.
pub open spec fn names_unique(v: Seq<RegistrationView>) -> bool {
    forall|i: int, j: int| 0 <= i < j < v.len() ==> v[i].name != v[j].name
}

proof fn lemma_without(v: Seq<RegistrationView>, name: Seq<char>, other: Seq<char>)
    ensures
        !is_registered(without(v, name), name),
        other != name ==> (is_registered(without(v, name), other) == is_registered(v, other)),
        names_unique(v) ==> names_unique(without(v, name)),
        forall|k: int|
            0 <= k < without(v, name).len() ==> exists|i: int|
                0 <= i < v.len() && #[trigger] without(v, name)[k] == v[i],
    decreases v.len(),
{
    if v.len() > 0 {
        let init = v.drop_last();
        lemma_without(init, name, other);
        let w = without(init, name);
        if v.last().name != name {
            let w2 = w.push(v.last());
            assert forall|k: int| 0 <= k < w2.len() implies exists|i: int|
                0 <= i < v.len() && #[trigger] w2[k] == v[i] by {
                if k == w2.len() - 1 {
                    assert(w2[k] == v[v.len() - 1]);
                } else {
                    let i = choose|i: int| 0 <= i < init.len() && w[k] == init[i];
                    assert(w2[k] == v[i]);
                }
            }
            if is_registered(w2, name) {
                let i = choose|i: int| 0 <= i < w2.len() && #[trigger] w2[i].name == name;
                assert(i < w.len());
                assert(w[i].name == name);
            }
            if other != name && is_registered(v, other) {
                let i = choose|i: int| 0 <= i < v.len() && #[trigger] v[i].name == other;
                if i == v.len() - 1 {
                    assert(w2[w2.len() - 1].name == other);
                } else {
                    assert(init[i].name == other);
                    let j = choose|j: int| 0 <= j < w.len() && #[trigger] w[j].name == other;
                    assert(w2[j].name == other);
                }
            }
            if other != name && is_registered(w2, other) {
                let j = choose|j: int| 0 <= j < w2.len() && #[trigger] w2[j].name == other;
                if j == w2.len() - 1 {
                    assert(v[v.len() - 1].name == other);
                } else {
                    assert(w[j].name == other);
                    let i = choose|i: int| 0 <= i < init.len() && #[trigger] init[i].name == other;
                    assert(v[i].name == other);
                }
            }
            if names_unique(v) {
                assert(names_unique(init));
                assert forall|i: int, j: int| 0 <= i < j < w2.len() implies w2[i].name
                    != w2[j].name by {
                    if j == w2.len() - 1 {
                        let a = choose|a: int| 0 <= a < init.len() && #[trigger] w[i] == init[a];
                        assert(v[a].name != v[v.len() - 1].name);
                    }
                }
            }
        } else {
            if other != name && is_registered(v, other) {
                let i = choose|i: int| 0 <= i < v.len() && #[trigger] v[i].name == other;
                assert(init[i].name == other);
            }
            if other != name && is_registered(init, other) {
                let i = choose|i: int| 0 <= i < init.len() && #[trigger] init[i].name == other;
                assert(v[i].name == other);
            }
            if names_unique(v) {
                assert(names_unique(init));
            }
        }
    }
}

/// Registering a name a second time, with no unregister in between, fails
/// with `RegistrationError`, whatever the server would answer.
pub proof fn lemma_register_twice_fails(
    v: Seq<RegistrationView>,
    name: Seq<char>,
    kind: RegionKind,
    byte_size: nat,
    status: i32,
    kind2: RegionKind,
    byte_size2: nat,
    status2: i32,
)
    requires
        register_result(v, name, kind, byte_size, status) is Ok,
    ensures
        register_result(
            register_result(v, name, kind, byte_size, status)->Ok_0,
            name,
            kind2,
            byte_size2,
            status2,
        ) == Err::<Seq<RegistrationView>, ShmError>(ShmError::RegistrationError),
{
    let w = register_result(v, name, kind, byte_size, status)->Ok_0;
    assert(w[w.len() - 1].name == name);
}

/// After a successful unregister of a name, registering it again is decided
/// by the server's answer alone.
pub proof fn lemma_unregister_frees_name(
    v: Seq<RegistrationView>,
    name: Seq<char>,
    kind: RegionKind,
    byte_size: nat,
    status: i32,
)
    ensures
        unregister_result(v, name, STATUS_OK) is Ok,
        !is_registered(unregister_result(v, name, STATUS_OK)->Ok_0, name),
        forall|other: Seq<char>|
            other != name ==> is_registered(unregister_result(v, name, STATUS_OK)->Ok_0, other)
                == is_registered(v, other),
        status == STATUS_OK ==> register_result(
            unregister_result(v, name, STATUS_OK)->Ok_0,
            name,
            kind,
            byte_size,
            status,
        ) is Ok,
        status != STATUS_OK ==> register_result(
            unregister_result(v, name, STATUS_OK)->Ok_0,
            name,
            kind,
            byte_size,
            status,
        ) == Err::<Seq<RegistrationView>, ShmError>(status_error(status)),
{
    lemma_without(v, name, name);
    assert forall|other: Seq<char>| other != name implies is_registered(
        unregister_result(v, name, STATUS_OK)->Ok_0,
        other,
    ) == is_registered(v, other) by {
        lemma_without(v, name, other);
    }
}

/// The error for a failed call with gRPC status `code`.
pub fn rpc_status_error(code: i32) -> (r: ShmError)
    ensures
        r == status_error(code),
{
    if code == 1 || code == 2 || code == 4 || code == 14 {
        ShmError::RpcTransportError
    } else {
        ShmError::RegistrationError
    }
}

/// The regions this client has registered with the server.
pub struct SharedMemoryRegistry {
    entries: Vec<Registration>,
}

impl View for SharedMemoryRegistry {
    type V = Seq<RegistrationView>;

    closed spec fn view(&self) -> Seq<RegistrationView> {
        self.entries@.map_values(|e: Registration| e@)
    }
}

impl SharedMemoryRegistry {
    /// The table's well-formedness: no name is registered twice.
    pub open spec fn wf(&self) -> bool {
        names_unique(self@)
    }

    /// An empty table.
    pub fn new() -> (r: Self)
        ensures
            r@ == Seq::<RegistrationView>::empty(),
            r.wf(),
    {
        let r = SharedMemoryRegistry { entries: Vec::new() };
        proof {
            assert(r@ =~= Seq::<RegistrationView>::empty());
        }
        r
    }

    /// The position of `name` in the table, if it is registered.
    fn position(&self, name: &String) -> (r: Option<usize>)
        ensures
            r is None <==> !is_registered(self@, name@),
            r matches Some(i) ==> i < self@.len() && self@[i as int].name == name@,
    {
        let mut i: usize = 0;
        while i < self.entries.len()
            invariant
                i <= self.entries@.len(),
                forall|k: int| 0 <= k < i ==> #[trigger] self@[k].name != name@,
            decreases self.entries@.len() - i,
        {
            if self.entries[i].name == *name {
                proof {
                    assert(self@[i as int].name == name@);
                }
                return Some(i);
            }
            i = i + 1;
        }
        None
    }

    /// Whether `name` is registered.
    pub fn is_registered(&self, name: &str) -> (r: bool)
        ensures
            r == is_registered(self@, name@),
    {
        let name = name.to_owned();
        self.position(&name).is_some()
    }

    /// The kind and byte size under which `name` is registered, if it is.
    pub fn registration(&self, name: &str) -> (r: Option<(RegionKind, u64)>)
        requires
            self.wf(),
        ensures
            r is None <==> !is_registered(self@, name@),
            r matches Some(p) ==> exists|i: int|
                0 <= i < self@.len() && #[trigger] self@[i].name == name@ && self@[i].kind == p.0
                    && self@[i].byte_size == p.1,
    {
        let name = name.to_owned();
        match self.position(&name) {
            Some(i) => Some((self.entries[i].kind, self.entries[i].byte_size)),
            None => None,
        }
    }

    /// The request that registers the host region `region`; refused with
    /// `RegionDestroyed` when the region was destroyed and with
    /// `RegistrationError` when its name is registered already.
    pub fn system_register_request(&self, region: &SystemSharedMemoryRegionHandle) -> (r: Result<
        SystemSharedMemoryRegisterRequest,
        ShmError,
    >)
        ensures
            !region@.live ==> r == Err::<SystemSharedMemoryRegisterRequest, ShmError>(
                ShmError::RegionDestroyed,
            ),
            region@.live && is_registered(self@, region@.name) ==> r == Err::<
                SystemSharedMemoryRegisterRequest,
                ShmError,
            >(ShmError::RegistrationError),
            region@.live && !is_registered(self@, region@.name) ==> r is Ok && ({
                let q = r->Ok_0;
                &&& q.name@ == region@.name
                &&& q.key@ == region@.key
                &&& q.offset == 0
                &&& q.byte_size == region@.size_bytes
            }),
    {
        if !region.is_live() {
            return Err(ShmError::RegionDestroyed);
        }
        let name = region.get_name();
        if self.position(&name).is_some() {
            return Err(ShmError::RegistrationError);
        }
        Ok(
            SystemSharedMemoryRegisterRequest {
                name,
                key: region.get_key(),
                offset: 0,
                byte_size: region.size_bytes() as u64,
            },
        )
    }

    /// The request that registers the device region `region` through the raw
    /// handle the driver exported for it; refused with `RegionDestroyed` when
    /// the region was destroyed and with `RegistrationError` when its name is
    /// registered already.
    pub fn cuda_register_request(
        &self,
        region: &CudaSharedMemoryRegionHandle,
        raw_handle: Vec<u8>,
    ) -> (r: Result<CudaSharedMemoryRegisterRequest, ShmError>)
        ensures
            !region@.live ==> r == Err::<CudaSharedMemoryRegisterRequest, ShmError>(
                ShmError::RegionDestroyed,
            ),
            region@.live && is_registered(self@, region@.name) ==> r == Err::<
                CudaSharedMemoryRegisterRequest,
                ShmError,
            >(ShmError::RegistrationError),
            region@.live && !is_registered(self@, region@.name) ==> r is Ok && ({
                let q = r->Ok_0;
                &&& q.name@ == region@.name
                &&& q.raw_handle == raw_handle
                &&& q.device_id == region@.device_id
                &&& q.byte_size == region@.size_bytes
            }),
    {
        if !region.is_live() {
            return Err(ShmError::RegionDestroyed);
        }
        let name = region.get_name();
        if self.position(&name).is_some() {
            return Err(ShmError::RegistrationError);
        }
        Ok(
            CudaSharedMemoryRegisterRequest {
                name,
                raw_handle,
                device_id: region.device_id(),
                byte_size: region.size_bytes() as u64,
            },
        )
    }

    /// Records the server's answer `status` to a register call for `name`.
    pub fn record_register(&mut self, name: &str, kind: RegionKind, byte_size: u64, status: i32) -> (r:
        Result<(), ShmError>)
        requires
            old(self).wf(),
        ensures
            final(self).wf(),
            match register_result(old(self)@, name@, kind, byte_size as nat, status) {
                Ok(v) => r is Ok && final(self)@ == v,
                Err(e) => r == Err::<(), ShmError>(e) && final(self)@ == old(self)@,
            },
    {
        let name = name.to_owned();
        if self.position(&name).is_some() {
            return Err(ShmError::RegistrationError);
        }
        if status != STATUS_OK {
            return Err(rpc_status_error(status));
        }
        let ghost old_view = self@;
        let ghost n = name@;
        self.entries.push(Registration { name, kind, byte_size });
        proof {
            let e = RegistrationView { name: n, kind, byte_size: byte_size as nat };
            assert(self@ =~= old_view.push(e));
            assert forall|i: int, j: int| 0 <= i < j < self@.len() implies self@[i].name
                != self@[j].name by {
                if j == self@.len() - 1 {
                    assert(old_view[i].name != n);
                }
            }
        }
        Ok(())
    }

    /// Records the server's answer `status` to an unregister call for `name`.
    pub fn record_unregister(&mut self, name: &str, status: i32) -> (r: Result<(), ShmError>)
        requires
            old(self).wf(),
        ensures
            final(self).wf(),
            match unregister_result(old(self)@, name@, status) {
                Ok(v) => r is Ok && final(self)@ == v,
                Err(e) => r == Err::<(), ShmError>(e) && final(self)@ == old(self)@,
            },
    {
        if status != STATUS_OK {
            return Err(rpc_status_error(status));
        }
        let name = name.to_owned();
        let ghost v = self@;
        let mut kept: Vec<Registration> = Vec::new();
        let mut i: usize = 0;
        while i < self.entries.len()
            invariant
                i <= self.entries@.len(),
                v == self@,
                kept@.map_values(|e: Registration| e@) == without(v.subrange(0, i as int), name@),
            decreases self.entries@.len() - i,
        {
            let e = &self.entries[i];
            proof {
                assert(v.subrange(0, i as int + 1).drop_last() =~= v.subrange(0, i as int));
            }
            if e.name != name {
                kept.push(Registration { name: e.name.clone(), kind: e.kind, byte_size: e.byte_size });
                proof {
                    assert(kept@.map_values(|e: Registration| e@) =~= without(
                        v.subrange(0, i as int + 1),
                        name@,
                    ));
                }
            }
            i = i + 1;
        }
        proof {
            assert(v.subrange(0, v.len() as int) =~= v);
            lemma_without(v, name@, name@);
        }
        self.entries = kept;
        Ok(())
    }
}

} // verus!
