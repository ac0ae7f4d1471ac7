//! What holds of every property update.

use vstd::prelude::*;
use crate::error::Error;
use crate::methods::proppatch::{
    lemma_failure_stays, OperationModel, paired, patch_all, patch_one, Patched, spec_proppatch,
};
use crate::privileges::UserPrivilege;
use crate::resource::{InvalidProperty, PropName, Resource, ResourceService};

verus! {

/// The operation would succeed on `resource`: a set of a readable value that
/// the resource takes, or a remove that the resource takes or whose name it
/// does not know.
pub open spec fn accepts<R: Resource>(
    resource: R::V,
    operation: OperationModel<<R::Prop as View>::V>,
    name: Seq<char>,
) -> bool {
    match operation {
        OperationModel::SetProperty(prop) => !R::Prop::spec_invalid_property(prop)
            && R::spec_set_prop(resource, prop).1 is Ok,
        OperationModel::Remove(_) => R::PropName::spec_from_str(name) matches Some(prop)
            ==> R::spec_remove_prop(resource, prop).1 is Ok,
    }
}

/// The operation has an unknown or a read-only target on `resource`.
pub open spec fn refuses<R: Resource>(
    resource: R::V,
    operation: OperationModel<<R::Prop as View>::V>,
    name: Seq<char>,
) -> bool {
    match operation {
        OperationModel::SetProperty(prop) => R::Prop::spec_invalid_property(prop)
            || R::spec_set_prop(resource, prop).1 == Err::<(), Error>(Error::PropReadOnly),
        OperationModel::Remove(_) => R::PropName::spec_from_str(name) matches Some(prop)
            && R::spec_remove_prop(resource, prop).1 == Err::<(), Error>(Error::PropReadOnly),
    }
}

/// A run that ends well went well all the way.
pub proof fn lemma_prefix_is_ok<R: Resource>(
    resource: R::V,
    operations: Seq<OperationModel<<R::Prop as View>::V>>,
    names: Seq<Seq<char>>,
    k: nat,
    n: nat,
)
    requires
        k <= n,
        patch_all::<R>(resource, operations, names, n) is Ok,
    ensures
        patch_all::<R>(resource, operations, names, k) is Ok,
{
    if patch_all::<R>(resource, operations, names, k) is Err {
        lemma_failure_stays::<R>(resource, operations, names, k, n);
    }
}

/// Names are only ever added to a group, and every operation run adds one.
pub proof fn lemma_groups_grow<R: Resource>(
    resource: R::V,
    operations: Seq<OperationModel<<R::Prop as View>::V>>,
    names: Seq<Seq<char>>,
    k: nat,
    n: nat,
)
    requires
        k <= n,
        patch_all::<R>(resource, operations, names, n) is Ok,
    ensures
        patch_all::<R>(resource, operations, names, k) is Ok,
        ({
            let early = patch_all::<R>(resource, operations, names, k)->Ok_0;
            let late = patch_all::<R>(resource, operations, names, n)->Ok_0;
            &&& early.ok.is_prefix_of(late.ok)
            &&& early.not_found.is_prefix_of(late.not_found)
            &&& early.conflict.is_prefix_of(late.conflict)
            &&& late.ok.len() + late.not_found.len() + late.conflict.len() == n
        }),
    decreases n,
{
    lemma_prefix_is_ok::<R>(resource, operations, names, k, n);
    if n > 0 {
        lemma_prefix_is_ok::<R>(resource, operations, names, (n - 1) as nat, n);
        if k < n {
            lemma_groups_grow::<R>(resource, operations, names, k, (n - 1) as nat);
        } else {
            lemma_groups_grow::<R>(resource, operations, names, (n - 1) as nat, (n - 1) as nat);
        }
    }
}

/// A run of operations that would each succeed reports every name OK.
proof fn lemma_all_accepted<R: Resource>(
    resource: R::V,
    operations: Seq<OperationModel<<R::Prop as View>::V>>,
    names: Seq<Seq<char>>,
    n: nat,
)
    requires
        n <= paired(operations.len() as int, names.len() as int),
        forall|k: int|
            0 <= k < n ==> (#[trigger] patch_all::<R>(resource, operations, names, k as nat)
                matches Ok(state) ==> accepts::<R>(state.resource, operations[k], names[k])),
    ensures
        patch_all::<R>(resource, operations, names, n) matches Ok(state) && state.clean()
            && state.ok == names.take(n as int),
    decreases n,
{
    if n == 0 {
        assert(names.take(0) =~= seq![]);
    } else {
        lemma_all_accepted::<R>(resource, operations, names, (n - 1) as nat);
        let before = patch_all::<R>(resource, operations, names, (n - 1) as nat);
        assert(before matches Ok(state) ==> accepts::<R>(
            state.resource,
            operations[n - 1],
            names[n - 1],
        ));
        assert(names.take(n as int) =~= names.take(n - 1).push(names[n - 1]));
    }
}

/// Where every operation would succeed, all names are reported OK in
/// request order, nothing is refused, and the updated resource is handed to
/// the session to be stored; if the session stores it, the next fetch gives
/// the updated resource.
pub proof fn lemma_accepted_update_is_stored<S: ResourceService>(
    service: S::V,
    operations: Seq<OperationModel<<<S::Resource as Resource>::Prop as View>::V>>,
    names: Seq<Seq<char>>,
    user: Seq<char>,
)
    requires
        S::spec_get_resource(service) is Ok,
        S::Resource::spec_user_privileges(S::spec_get_resource(service)->Ok_0, user) is Ok,
        S::Resource::spec_user_privileges(
            S::spec_get_resource(service)->Ok_0,
            user,
        )->Ok_0@.contains(UserPrivilege::Write),
        forall|k: int|
            0 <= k < paired(operations.len() as int, names.len() as int) ==> (
            #[trigger] patch_all::<S::Resource>(
                S::spec_get_resource(service)->Ok_0,
                operations,
                names,
                k as nat,
            ) matches Ok(state) ==> accepts::<S::Resource>(
                state.resource,
                operations[k],
                names[k],
            )),
    ensures
        ({
            let n = paired(operations.len() as int, names.len() as int);
            let run = patch_all::<S::Resource>(
                S::spec_get_resource(service)->Ok_0,
                operations,
                names,
                n,
            );
            let (after, outcome) = spec_proppatch::<S>(service, operations, names, user);
            &&& run matches Ok(state) && state.clean() && state.ok == names.take(n as int) && {
                let (stored, saved) = S::spec_save_resource(service, state.resource);
                &&& after == stored
                &&& saved is Ok ==> outcome == Ok::<Patched<<S::Resource as View>::V>, Error>(state)
                    && S::spec_get_resource(after) == Ok::<<S::Resource as View>::V, Error>(
                    state.resource,
                )
                &&& saved matches Err(e) ==> outcome == Err::<
                    Patched<<S::Resource as View>::V>,
                    Error,
                >(e)
            }
        }),
{
    let resource = S::spec_get_resource(service)->Ok_0;
    let n = paired(operations.len() as int, names.len() as int);
    lemma_all_accepted::<S::Resource>(resource, operations, names, n);
    let state = patch_all::<S::Resource>(resource, operations, names, n)->Ok_0;
    S::saved_is_fetched(service, state.resource);
}

/// Where one operation has an unknown or a read-only target, nothing is
/// stored: the session is left as it was. If no operation fails for another
/// reason, the request still succeeds, the refusal is reported, and every
/// operation that would have succeeded is reported OK.
pub proof fn lemma_refused_update_stores_nothing<S: ResourceService>(
    service: S::V,
    operations: Seq<OperationModel<<<S::Resource as Resource>::Prop as View>::V>>,
    names: Seq<Seq<char>>,
    user: Seq<char>,
    refused: int,
)
    requires
        S::spec_get_resource(service) is Ok,
        0 <= refused < paired(operations.len() as int, names.len() as int),
        patch_all::<S::Resource>(
            S::spec_get_resource(service)->Ok_0,
            operations,
            names,
            refused as nat,
        ) matches Ok(state) && refuses::<S::Resource>(
            state.resource,
            operations[refused],
            names[refused],
        ),
    ensures
        ({
            let n = paired(operations.len() as int, names.len() as int);
            let resource = S::spec_get_resource(service)->Ok_0;
            let run = patch_all::<S::Resource>(resource, operations, names, n);
            let (after, outcome) = spec_proppatch::<S>(service, operations, names, user);
            &&& after == service
            &&& outcome matches Ok(state) ==> {
                &&& run == Ok::<Patched<<S::Resource as View>::V>, Error>(state)
                &&& !state.clean()
                &&& forall|j: int|
                    0 <= j < n && (#[trigger] patch_all::<S::Resource>(
                        resource,
                        operations,
                        names,
                        j as nat,
                    ) matches Ok(at) && accepts::<S::Resource>(
                        at.resource,
                        operations[j],
                        names[j],
                    )) ==> state.ok.contains(names[j])
            }
            &&& (run is Ok && S::Resource::spec_user_privileges(resource, user) is Ok
                && S::Resource::spec_user_privileges(resource, user)->Ok_0@.contains(
                UserPrivilege::Write,
            )) ==> outcome is Ok
        }),
{
    let n = paired(operations.len() as int, names.len() as int);
    let resource = S::spec_get_resource(service)->Ok_0;
    let run = patch_all::<S::Resource>(resource, operations, names, n);
    if run is Ok {
        let state = run->Ok_0;
        lemma_groups_grow::<S::Resource>(resource, operations, names, (refused + 1) as nat, n);
        let next = patch_all::<S::Resource>(resource, operations, names, (refused + 1) as nat)->Ok_0;
        assert(next.not_found.len() + next.conflict.len() > 0);
        assert forall|j: int|
            0 <= j < n && (#[trigger] patch_all::<S::Resource>(
                resource,
                operations,
                names,
                j as nat,
            ) matches Ok(at) && accepts::<S::Resource>(
                at.resource,
                operations[j],
                names[j],
            )) implies state.ok.contains(names[j]) by {
            lemma_groups_grow::<S::Resource>(resource, operations, names, (j + 1) as nat, n);
            let a = patch_all::<S::Resource>(resource, operations, names, j as nat)->Ok_0;
            let b = patch_all::<S::Resource>(resource, operations, names, (j + 1) as nat)->Ok_0;
            assert(b == patch_one::<S::Resource>(a, operations[j], names[j])->Ok_0);
            assert(b.ok == a.ok.push(names[j]));
            assert(b.ok[a.ok.len() as int] == names[j]);
            assert(state.ok[a.ok.len() as int] == names[j]);
        }
    }
}

/// Removing a name that the resource kind does not know is reported OK and
/// leaves the resource as it was, the second time as the first.
pub proof fn lemma_remove_unknown_twice<R: Resource>(state: Patched<R::V>, name: Seq<char>)
    requires
        R::PropName::spec_from_str(name) is None,
    ensures
        patch_one::<R>(state, OperationModel::Remove(name), name) == Ok::<Patched<R::V>, Error>(
            Patched { ok: state.ok.push(name), ..state },
        ),
        patch_one::<R>(
            patch_one::<R>(state, OperationModel::Remove(name), name)->Ok_0,
            OperationModel::Remove(name),
            name,
        ) == Ok::<Patched<R::V>, Error>(Patched { ok: state.ok.push(name).push(name), ..state }),
{
}

} // verus!
