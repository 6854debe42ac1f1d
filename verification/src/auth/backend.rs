use vstd::prelude::*;
use crate::auth::{AuthBackend, AuthError, AuthIdentity, AuthIdentityView, AuthInput, AuthInputView, auth_result_view};
use crate::auth::static_key::{StaticKeyBackend, static_key_decision};
use crate::util::AuthMethod;

verus! {

/// A registered backend: a static-key backend held as it is, so that its decision is known
/// by its keys, or any other backend, boxed.
pub enum RegisteredBackend {
    StaticKey(StaticKeyBackend),
    Boxed(Box<dyn AuthBackend>),
}

impl RegisteredBackend {
    /// The decision this backend takes on an input.
    pub open spec fn spec_decide(&self, input: AuthInputView) -> Result<AuthIdentityView, AuthError> {
        match self {
            RegisteredBackend::StaticKey(k) => static_key_decision(k.spec_keys(), input),
            RegisteredBackend::Boxed(b) => b.spec_authenticate(input),
        }
    }

    /// Authenticates an input with this backend.
    pub fn decide(&self, input: AuthInput) -> (r: Result<AuthIdentity, AuthError>)
        ensures
            auth_result_view(r) == self.spec_decide(input@),
    {
        match self {
            RegisteredBackend::StaticKey(k) => k.authenticate(input),
            RegisteredBackend::Boxed(b) => b.authenticate(input),
        }
    }
}

/// Routes each authentication to the backend registered for its method, provided that
/// method is enabled.
pub struct AuthCoordinator {
    enabled_methods: Vec<AuthMethod>,
    backends: Vec<(AuthMethod, RegisteredBackend)>,
}

/// The first position of `method` among the registered backends.
pub open spec fn first_backend_index(
    backends: Seq<(AuthMethod, RegisteredBackend)>,
    method: AuthMethod,
    from: int,
) -> Option<int>
    decreases backends.len() - from,
{
    if from < 0 || from >= backends.len() {
        None
    } else if backends[from].0 == method {
        Some(from)
    } else {
        first_backend_index(backends, method, from + 1)
    }
}

pub proof fn lemma_first_backend_index(
    backends: Seq<(AuthMethod, RegisteredBackend)>,
    method: AuthMethod,
    from: int,
)
    requires
        0 <= from,
    ensures
        first_backend_index(backends, method, from) matches Some(j) ==> from <= j < backends.len()
            && backends[j].0 == method && (forall|k: int|
            from <= k < j ==> backends[k].0 != method),
        first_backend_index(backends, method, from) is None ==> (forall|k: int|
            from <= k < backends.len() ==> backends[k].0 != method),
    decreases backends.len() - from,
{
    if from < backends.len() && backends[from].0 != method {
        lemma_first_backend_index(backends, method, from + 1);
    }
}

/// Whether no method has more than one backend registered.
pub open spec fn one_per_method(backends: Seq<(AuthMethod, RegisteredBackend)>) -> bool {
    forall|i: int, j: int|
        0 <= i < j < backends.len() ==> #[trigger] backends[i].0 != #[trigger] backends[j].0
}

/// Two registrations with the same methods in the same places find the same backend for
/// every method.
proof fn lemma_first_index_same_methods(
    a: Seq<(AuthMethod, RegisteredBackend)>,
    b: Seq<(AuthMethod, RegisteredBackend)>,
    method: AuthMethod,
    from: int,
)
    requires
        a.len() == b.len(),
        forall|k: int| 0 <= k < a.len() ==> #[trigger] a[k].0 == b[k].0,
    ensures
        first_backend_index(a, method, from) == first_backend_index(b, method, from),
    decreases a.len() - from,
{
    if 0 <= from < a.len() && a[from].0 != method {
        lemma_first_index_same_methods(a, b, method, from + 1);
    }
}

/// Appending a backend leaves the first backend of every method already present, and makes
/// the new one the first for its method where that method had none.
proof fn lemma_first_index_push(
    a: Seq<(AuthMethod, RegisteredBackend)>,
    e: (AuthMethod, RegisteredBackend),
    method: AuthMethod,
    from: int,
)
    requires
        0 <= from <= a.len(),
    ensures
        first_backend_index(a.push(e), method, from) == match first_backend_index(
            a,
            method,
            from,
        ) {
            Some(i) => Some(i),
            None => if e.0 == method {
                Some(a.len() as int)
            } else {
                None
            },
        },
    decreases a.len() - from,
{
    if from < a.len() {
        assert(a.push(e)[from] == a[from]);
        if a[from].0 != method {
            lemma_first_index_push(a, e, method, from + 1);
        }
    } else {
        assert(a.push(e)[from] == e);
        assert(first_backend_index(a.push(e), method, from + 1) is None);
    }
}

/// Replacing the backend of the first entry for a method changes no entry's method, so every
/// method finds its backend where it did, and no method gains a second backend.
proof fn lemma_register_update(
    bs: Seq<(AuthMethod, RegisteredBackend)>,
    i: int,
    e: (AuthMethod, RegisteredBackend),
)
    requires
        0 <= i < bs.len(),
        bs[i].0 == e.0,
    ensures
        bs.update(i, e).len() == bs.len(),
        bs.update(i, e)[i] == e,
        forall|k: int| 0 <= k < bs.len() ==> #[trigger] bs.update(i, e)[k].0 == bs[k].0,
        forall|m: AuthMethod| #[trigger]
            first_backend_index(bs.update(i, e), m, 0) == first_backend_index(bs, m, 0),
        one_per_method(bs) ==> one_per_method(bs.update(i, e)),
{
    let nb = bs.update(i, e);
    assert(forall|k: int| 0 <= k < bs.len() ==> #[trigger] nb[k].0 == bs[k].0);
    assert forall|m: AuthMethod| #[trigger]
        first_backend_index(nb, m, 0) == first_backend_index(bs, m, 0) by {
        lemma_first_index_same_methods(nb, bs, m, 0);
    }
}

/// Appending a backend for a method that had none makes it that method's backend, leaves
/// every other method's backend where it was, and gives no method a second backend.
proof fn lemma_register_push(
    bs: Seq<(AuthMethod, RegisteredBackend)>,
    e: (AuthMethod, RegisteredBackend),
)
    requires
        first_backend_index(bs, e.0, 0) is None,
    ensures
        bs.push(e)[bs.len() as int] == e,
        bs.push(e).len() == bs.len() + 1,
        forall|k: int| 0 <= k < bs.len() ==> #[trigger] bs.push(e)[k].0 == bs[k].0,
        bs.push(e)[bs.len() as int].0 == e.0,
        first_backend_index(bs.push(e), e.0, 0) == Some(bs.len() as int),
        forall|m: AuthMethod|
            m != e.0 ==> #[trigger] first_backend_index(bs.push(e), m, 0) == first_backend_index(
                bs,
                m,
                0,
            ),
        one_per_method(bs) ==> one_per_method(bs.push(e)),
{
    lemma_first_backend_index(bs, e.0, 0);
    lemma_first_index_push(bs, e, e.0, 0);
    assert forall|m: AuthMethod| m != e.0 implies #[trigger] first_backend_index(bs.push(e), m, 0)
        == first_backend_index(bs, m, 0) by {
        lemma_first_index_push(bs, e, m, 0);
    }
    let nb = bs.push(e);
    if one_per_method(bs) {
        assert forall|i: int, j: int| 0 <= i < j < nb.len() implies #[trigger] nb[i].0
            != #[trigger] nb[j].0 by {
            if j == bs.len() {
                assert(nb[i] == bs[i]);
            } else {
                assert(nb[i] == bs[i] && nb[j] == bs[j]);
            }
        }
    }
}

impl AuthCoordinator {
    /// No method ever has more than one backend registered.
    #[verifier::type_invariant]
    pub open spec fn backends_one_per_method(self) -> bool {
        one_per_method(self.spec_backends())
    }

    pub closed spec fn spec_enabled(&self) -> Seq<AuthMethod> {
        self.enabled_methods@
    }

    pub closed spec fn spec_backends(&self) -> Seq<(AuthMethod, RegisteredBackend)> {
        self.backends@
    }

    /// The decision of the coordinator: methods that are not enabled, or that have no
    /// backend, are unsupported; otherwise the first backend registered for the method decides.
    pub open spec fn spec_authenticate(&self, input: AuthInputView) -> Result<AuthIdentityView, AuthError> {
        if !self.spec_enabled().contains(input.method) {
            Err(AuthError::UnsupportedBackend { method: input.method })
        } else {
            match first_backend_index(self.spec_backends(), input.method, 0) {
                None => Err(AuthError::UnsupportedBackend { method: input.method }),
                Some(i) => self.spec_backends()[i].1.spec_decide(input),
            }
        }
    }

    pub fn new(enabled_methods: Vec<AuthMethod>) -> (r: Self)
        ensures
            r.spec_enabled() == enabled_methods@,
            r.spec_backends().len() == 0,
            one_per_method(r.spec_backends()),
    {
        AuthCoordinator { enabled_methods, backends: Vec::new() }
    }

    /// Puts `entry` in place for `method`: where the method has an entry it is replaced,
    /// otherwise the entry is appended.
    fn register_entry(&mut self, method: AuthMethod, entry: RegisteredBackend)
        ensures
            final(self).spec_enabled() == old(self).spec_enabled(),
            match first_backend_index(old(self).spec_backends(), method, 0) {
                Some(i) => final(self).spec_backends() == old(self).spec_backends().update(
                    i,
                    (method, entry),
                ),
                None => final(self).spec_backends() == old(self).spec_backends().push(
                    (method, entry),
                ),
            },
            one_per_method(final(self).spec_backends()),
            final(self).spec_backends().len() == if first_backend_index(
                old(self).spec_backends(),
                method,
                0,
            ) is Some {
                old(self).spec_backends().len()
            } else {
                old(self).spec_backends().len() + 1
            },
            forall|k: int|
                0 <= k < final(self).spec_backends().len() ==> #[trigger] final(self).spec_backends()[k].0
                    == if k < old(self).spec_backends().len() {
                    old(self).spec_backends()[k].0
                } else {
                    method
                },
            forall|input: AuthInputView|
                input.method != method ==> #[trigger] final(self).spec_authenticate(input) == old(
                    self,
                ).spec_authenticate(input),
            forall|input: AuthInputView|
                input.method == method ==> #[trigger] final(self).spec_authenticate(input) == (if old(
                    self,
                ).spec_enabled().contains(method) {
                    entry.spec_decide(input)
                } else {
                    Err(AuthError::UnsupportedBackend { method })
                }),
    {
        proof {
            use_type_invariant(&*self);
        }
        let ghost before = *self;
        let mut backends: Vec<(AuthMethod, RegisteredBackend)> = Vec::new();
        std::mem::swap(&mut backends, &mut self.backends);
        let ghost old_bs = backends@;
        let mut i: usize = 0;
        while i < backends.len()
            invariant
                i <= backends@.len(),
                backends@ == old_bs,
                old_bs == before.spec_backends(),
                one_per_method(old_bs),
                before == *old(self),
                self.enabled_methods@ == old(self).enabled_methods@,
                self.backends@.len() == 0,
                first_backend_index(old_bs, method, 0) == first_backend_index(old_bs, method, i as int),
            decreases backends@.len() - i,
        {
            if backends[i].0 == method {
                backends.set(i, (method, entry));
                proof {
                    lemma_first_backend_index(old_bs, method, i as int);
                    lemma_first_backend_index(old_bs, method, 0);
                    lemma_register_update(old_bs, i as int, (method, entry));
                }
                self.backends = backends;
                proof {
                    assert forall|input: AuthInputView| input.method != method implies #[trigger] self.spec_authenticate(input)
                        == before.spec_authenticate(input) by {
                        lemma_register_replaces(before, *self, (method, entry), input);
                    }
                    assert forall|input: AuthInputView| input.method == method implies #[trigger] self.spec_authenticate(input)
                        == (if before.spec_enabled().contains(method) {
                        entry.spec_decide(input)
                    } else {
                        Err(AuthError::UnsupportedBackend { method })
                    }) by {
                        lemma_register_replaces(before, *self, (method, entry), input);
                    }
                }
                return;
            }
            i = i + 1;
        }
        backends.push((method, entry));
        proof {
            lemma_first_backend_index(old_bs, method, 0);
            lemma_register_push(old_bs, (method, entry));
        }
        self.backends = backends;
        proof {
            assert forall|input: AuthInputView| input.method != method implies #[trigger] self.spec_authenticate(input)
                == before.spec_authenticate(input) by {
                lemma_register_replaces(before, *self, (method, entry), input);
            }
            assert forall|input: AuthInputView| input.method == method implies #[trigger] self.spec_authenticate(input)
                == (if before.spec_enabled().contains(method) {
                entry.spec_decide(input)
            } else {
                Err(AuthError::UnsupportedBackend { method })
            }) by {
                lemma_register_replaces(before, *self, (method, entry), input);
            }
        }
    }

    /// Registers the backend for a method, replacing the one registered before for it. The
    /// new backend then decides the method's inputs wherever the method is enabled; the other
    /// methods are decided as before, and no method has two backends.
    pub fn register_backend(&mut self, method: AuthMethod, backend: Box<dyn AuthBackend>)
        ensures
            final(self).spec_enabled() == old(self).spec_enabled(),
            one_per_method(final(self).spec_backends()),
            final(self).spec_backends().len() == if first_backend_index(
                old(self).spec_backends(),
                method,
                0,
            ) is Some {
                old(self).spec_backends().len()
            } else {
                old(self).spec_backends().len() + 1
            },
            forall|k: int|
                0 <= k < final(self).spec_backends().len() ==> #[trigger] final(self).spec_backends()[k].0
                    == if k < old(self).spec_backends().len() {
                    old(self).spec_backends()[k].0
                } else {
                    method
                },
            forall|input: AuthInputView|
                input.method != method ==> #[trigger] final(self).spec_authenticate(input) == old(
                    self,
                ).spec_authenticate(input),
            forall|input: AuthInputView|
                input.method == method ==> #[trigger] final(self).spec_authenticate(input) == (if old(
                    self,
                ).spec_enabled().contains(method) {
                    RegisteredBackend::Boxed(backend).spec_decide(input)
                } else {
                    Err(AuthError::UnsupportedBackend { method })
                }),
    {
        self.register_entry(method, RegisteredBackend::Boxed(backend));
    }

    /// Registers a static-key backend for the static-key method, as `register_backend` does,
    /// holding it unboxed so that what it decides is known by its keys.
    pub fn register_static_key_backend(&mut self, backend: StaticKeyBackend)
        ensures
            final(self).spec_enabled() == old(self).spec_enabled(),
            match first_backend_index(old(self).spec_backends(), AuthMethod::StaticKey, 0) {
                Some(i) => final(self).spec_backends() == old(self).spec_backends().update(
                    i,
                    (AuthMethod::StaticKey, RegisteredBackend::StaticKey(backend)),
                ),
                None => final(self).spec_backends() == old(self).spec_backends().push(
                    (AuthMethod::StaticKey, RegisteredBackend::StaticKey(backend)),
                ),
            },
            one_per_method(final(self).spec_backends()),
            final(self).spec_backends().len() == if first_backend_index(
                old(self).spec_backends(),
                AuthMethod::StaticKey,
                0,
            ) is Some {
                old(self).spec_backends().len()
            } else {
                old(self).spec_backends().len() + 1
            },
            forall|k: int|
                0 <= k < final(self).spec_backends().len() ==> #[trigger] final(self).spec_backends()[k].0
                    == if k < old(self).spec_backends().len() {
                    old(self).spec_backends()[k].0
                } else {
                    AuthMethod::StaticKey
                },
            forall|input: AuthInputView|
                input.method != AuthMethod::StaticKey ==> #[trigger] final(self).spec_authenticate(input) == old(
                    self,
                ).spec_authenticate(input),
            forall|input: AuthInputView|
                input.method == AuthMethod::StaticKey ==> #[trigger] final(self).spec_authenticate(input) == (if old(
                    self,
                ).spec_enabled().contains(AuthMethod::StaticKey) {
                    static_key_decision(backend.spec_keys(), input)
                } else {
                    Err(AuthError::UnsupportedBackend { method: AuthMethod::StaticKey })
                }),
    {
        self.register_entry(AuthMethod::StaticKey, RegisteredBackend::StaticKey(backend));
    }

    /// Authenticates an input with the backend registered for its method.
    pub fn authenticate(&self, input: AuthInput) -> (r: Result<AuthIdentity, AuthError>)
        ensures
            auth_result_view(r) == self.spec_authenticate(input@),
    {
        let mut enabled = false;
        let mut k: usize = 0;
        while k < self.enabled_methods.len()
            invariant
                k <= self.enabled_methods@.len(),
                enabled == (exists|j: int| 0 <= j < k && self.enabled_methods@[j] == input.method),
            decreases self.enabled_methods@.len() - k,
        {
            if self.enabled_methods[k] == input.method {
                enabled = true;
            }
            k = k + 1;
        }
        if !enabled {
            assert(!self.enabled_methods@.contains(input.method));
            return Err(AuthError::UnsupportedBackend { method: input.method });
        }
        assert(self.enabled_methods@.contains(input.method));
        let mut i: usize = 0;
        while i < self.backends.len()
            invariant
                i <= self.backends@.len(),
                self.enabled_methods@.contains(input.method),
                first_backend_index(self.backends@, input.method, 0) == first_backend_index(
                    self.backends@,
                    input.method,
                    i as int,
                ),
            decreases self.backends@.len() - i,
        {
            if self.backends[i].0 == input.method {
                return self.backends[i].1.decide(input);
            }
            i = i + 1;
        }
        Err(AuthError::UnsupportedBackend { method: input.method })
    }
}

/// Registering a backend for a method makes it the one that decides that method's inputs
/// (where the method is enabled), and leaves the decision on every other method as it was.
pub proof fn lemma_register_replaces(
    before: AuthCoordinator,
    after: AuthCoordinator,
    entry: (AuthMethod, RegisteredBackend),
    input: AuthInputView,
)
    requires
        after.spec_enabled() == before.spec_enabled(),
        match first_backend_index(before.spec_backends(), entry.0, 0) {
            Some(i) => after.spec_backends() == before.spec_backends().update(i, entry),
            None => after.spec_backends() == before.spec_backends().push(entry),
        },
    ensures
        input.method == entry.0 ==> after.spec_authenticate(input) == if before.spec_enabled().contains(
            entry.0,
        ) {
            entry.1.spec_decide(input)
        } else {
            Err(AuthError::UnsupportedBackend { method: entry.0 })
        },
        input.method != entry.0 ==> after.spec_authenticate(input) == before.spec_authenticate(input),
{
    let bs = before.spec_backends();
    let nb = after.spec_backends();
    lemma_first_backend_index(bs, entry.0, 0);
    match first_backend_index(bs, entry.0, 0) {
        Some(i) => {
            lemma_register_update(bs, i, entry);
            assert(nb[i] == entry);
            if input.method != entry.0 {
                lemma_first_backend_index(bs, input.method, 0);
                if let Some(j) = first_backend_index(bs, input.method, 0) {
                    assert(nb[j] == bs[j]);
                }
            }
        },
        None => {
            lemma_register_push(bs, entry);
            assert(nb[bs.len() as int] == entry);
            if input.method != entry.0 {
                lemma_first_backend_index(bs, input.method, 0);
                if let Some(j) = first_backend_index(bs, input.method, 0) {
                    assert(nb[j] == bs[j]);
                }
            }
        },
    }
}

} // verus!
