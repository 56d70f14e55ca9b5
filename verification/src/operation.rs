//! Client operations of one attachment, prepared as plain requests.
//!
//! Each operation first turns the caller's numeric object reference into an
//! object identifier, and only then is anything sent: the functions here
//! decide the request (or the configuration error) and the I/O layer sends it
//! over the attachment's client, directly or routed.

use vstd::prelude::*;
use crate::address::{
    copy_mac, lemma_identifier_by_parts, ObjectIdentifier, MAX_OBJECT_INSTANCE, MAX_OBJECT_TYPE,
};
use crate::error::{ErrorCode, RuntimeError};

verus! {

/// One property of one object on a remote device.
#[derive(Clone, Copy, Debug, PartialEq, Eq, Structural)]
pub struct PropertyRead {
    /// Object type number.
    pub object_type: u16,
    /// Object instance number.
    pub object_instance: u32,
    /// Property identifier.
    pub property_id: u32,
    /// Array index, when one element of an array property is meant.
    pub array_index: Option<u32>,
}

/// Identity of one COV observation on a remote device.
#[derive(Clone, Copy, Debug, PartialEq, Eq, Structural)]
pub struct ObservationKey {
    /// Object type number.
    pub object_type: u16,
    /// Object instance number.
    pub object_instance: u32,
    /// Subscriber process identifier.
    pub subscriber_process_id: u32,
}

/// A COV observation to establish or cancel.
#[derive(Clone, Copy, Debug, PartialEq, Eq, Structural)]
pub struct ObservationSpec {
    /// What is observed, and by which process.
    pub key: ObservationKey,
    /// Whether notifications are confirmed.
    pub confirmed: bool,
    /// Subscription lifetime in seconds.
    pub lifetime_seconds: u32,
}

/// One property value of a WritePropertyMultiple request.
#[derive(Clone, Debug)]
pub struct PropertyValueWrite {
    /// Property identifier.
    pub property_id: u32,
    /// Array index, when one element is written.
    pub array_index: Option<u32>,
    /// Encoded value.
    pub value: Vec<u8>,
    /// Write priority.
    pub priority: Option<u8>,
}

/// Mathematical form of a [`PropertyValueWrite`].
pub struct PropertyValueView {
    pub property_id: u32,
    pub array_index: Option<u32>,
    pub value: Seq<u8>,
    pub priority: Option<u8>,
}

impl View for PropertyValueWrite {
    type V = PropertyValueView;

    open spec fn view(&self) -> PropertyValueView {
        PropertyValueView {
            property_id: self.property_id,
            array_index: self.array_index,
            value: self.value@,
            priority: self.priority,
        }
    }
}

/// The property values written to one object.
#[derive(Clone, Debug)]
pub struct WriteAccessSpec {
    /// Target object.
    pub object: ObjectIdentifier,
    /// Values written to it, in request order.
    pub properties: Vec<PropertyValueWrite>,
}

/// Mathematical form of a [`WriteAccessSpec`]: the object as its
/// (type, instance) pair and the values in order.
pub struct WriteGroupView {
    pub object: (u16, u32),
    pub properties: Seq<PropertyValueView>,
}

impl View for WriteAccessSpec {
    type V = WriteGroupView;

    open spec fn view(&self) -> WriteGroupView {
        WriteGroupView {
            object: object_key(self.object),
            properties: self.properties@.map_values(|p: PropertyValueWrite| p@),
        }
    }
}

/// A request for the attachment's client.
#[derive(Clone, Debug)]
pub enum ClientRequest {
    /// ReadProperty.
    ReadProperty { object: ObjectIdentifier, property_id: u32, array_index: Option<u32> },
    /// WriteProperty.
    WriteProperty {
        object: ObjectIdentifier,
        property_id: u32,
        array_index: Option<u32>,
        value: Vec<u8>,
        priority: Option<u8>,
    },
    /// WritePropertyMultiple, one specification per object.
    WritePropertyMultiple { specs: Vec<WriteAccessSpec> },
    /// SubscribeCOV with a lifetime.
    SubscribeCov {
        subscriber_process_id: u32,
        object: ObjectIdentifier,
        confirmed: bool,
        lifetime_seconds: Option<u32>,
    },
    /// SubscribeCOV cancellation.
    UnsubscribeCov { subscriber_process_id: u32, object: ObjectIdentifier },
}

/// An object identifier as its (type, instance) pair.
pub open spec fn object_key(id: ObjectIdentifier) -> (u16, u32) {
    (id.type_view(), id.instance_view())
}

/// Whether `(object_type, instance)` names an encodable object identifier.
pub open spec fn valid_object(object_type: u16, instance: u32) -> bool {
    object_type <= MAX_OBJECT_TYPE && instance <= MAX_OBJECT_INSTANCE
}

/// The error every operation reports for an unencodable object reference.
pub open spec fn object_error(e: RuntimeError) -> bool {
    &&& e.code == ErrorCode::InvalidConfig
    &&& !e.retryable
    &&& e.attachment_id is None
}

/// The object identifier of `(object_type, instance)`, or the configuration
/// error that every operation reports before sending anything.
pub fn resolve_object(object_type: u16, instance: u32) -> (r: Result<ObjectIdentifier, RuntimeError>)
    ensures
        r is Ok <==> valid_object(object_type, instance),
        r matches Ok(id) ==> object_key(id) == (object_type, instance),
        r matches Err(e) ==> object_error(e),
{
    match ObjectIdentifier::new(object_type, instance) {
        Some(id) => Ok(id),
        None => Err(RuntimeError::invalid_config("object identifier out of range")),
    }
}

/// The ReadProperty request for `read`.
pub fn read_property_request(read: &PropertyRead) -> (r: Result<ClientRequest, RuntimeError>)
    ensures
        r is Ok <==> valid_object(read.object_type, read.object_instance),
        r matches Ok(req) ==> (req matches ClientRequest::ReadProperty { object, property_id, array_index }
            && object_key(object) == (read.object_type, read.object_instance)
            && property_id == read.property_id && array_index == read.array_index),
        r matches Err(e) ==> object_error(e),
{
    let object = resolve_object(read.object_type, read.object_instance)?;
    Ok(ClientRequest::ReadProperty {
        object,
        property_id: read.property_id,
        array_index: read.array_index,
    })
}

/// The WriteProperty request writing `raw_value` to `target` at `priority`.
pub fn write_property_request(target: &PropertyRead, raw_value: Vec<u8>, priority: Option<u8>) -> (r:
    Result<ClientRequest, RuntimeError>)
    ensures
        r is Ok <==> valid_object(target.object_type, target.object_instance),
        r matches Ok(req) ==> (req matches ClientRequest::WriteProperty {
            object,
            property_id,
            array_index,
            value,
            priority: p,
        } && object_key(object) == (target.object_type, target.object_instance)
            && property_id == target.property_id && array_index == target.array_index
            && value@ == raw_value@ && p == priority),
        r matches Err(e) ==> object_error(e),
{
    let object = resolve_object(target.object_type, target.object_instance)?;
    Ok(ClientRequest::WriteProperty {
        object,
        property_id: target.property_id,
        array_index: target.array_index,
        value: raw_value,
        priority,
    })
}

/// The SubscribeCOV request establishing `spec` for its lifetime.
pub fn subscribe_cov_request(spec: &ObservationSpec) -> (r: Result<ClientRequest, RuntimeError>)
    ensures
        r is Ok <==> valid_object(spec.key.object_type, spec.key.object_instance),
        r matches Ok(req) ==> (req matches ClientRequest::SubscribeCov {
            subscriber_process_id,
            object,
            confirmed,
            lifetime_seconds,
        } && object_key(object) == (spec.key.object_type, spec.key.object_instance)
            && subscriber_process_id == spec.key.subscriber_process_id
            && confirmed == spec.confirmed && lifetime_seconds == Some(spec.lifetime_seconds)),
        r matches Err(e) ==> object_error(e),
{
    let object = resolve_object(spec.key.object_type, spec.key.object_instance)?;
    Ok(ClientRequest::SubscribeCov {
        subscriber_process_id: spec.key.subscriber_process_id,
        object,
        confirmed: spec.confirmed,
        lifetime_seconds: Some(spec.lifetime_seconds),
    })
}

/// The SubscribeCOV cancellation of `spec`.
pub fn unsubscribe_cov_request(spec: &ObservationSpec) -> (r: Result<ClientRequest, RuntimeError>)
    ensures
        r is Ok <==> valid_object(spec.key.object_type, spec.key.object_instance),
        r matches Ok(req) ==> (req matches ClientRequest::UnsubscribeCov { subscriber_process_id, object }
            && object_key(object) == (spec.key.object_type, spec.key.object_instance)
            && subscriber_process_id == spec.key.subscriber_process_id),
        r matches Err(e) ==> object_error(e),
{
    let object = resolve_object(spec.key.object_type, spec.key.object_instance)?;
    Ok(ClientRequest::UnsubscribeCov { subscriber_process_id: spec.key.subscriber_process_id, object })
}

/// One write of a WritePropertyMultiple call: the object it targets and the
/// value written.
pub open spec fn write_item(w: (PropertyRead, Vec<u8>, Option<u8>)) -> ((u16, u32), PropertyValueView) {
    (
        (w.0.object_type, w.0.object_instance),
        PropertyValueView {
            property_id: w.0.property_id,
            array_index: w.0.array_index,
            value: w.1@,
            priority: w.2,
        },
    )
}

/// The writes of a WritePropertyMultiple call as object/value pairs.
pub open spec fn write_items(writes: Seq<(PropertyRead, Vec<u8>, Option<u8>)>) -> Seq<
    ((u16, u32), PropertyValueView),
> {
    writes.map_values(|w: (PropertyRead, Vec<u8>, Option<u8>)| write_item(w))
}

/// Position of the first group of `object` in `groups`, or -1 when none.
pub open spec fn group_position(groups: Seq<WriteGroupView>, object: (u16, u32)) -> int
    decreases groups.len(),
{
    if groups.len() == 0 {
        -1
    } else if groups[0].object == object {
        0
    } else {
        let r = group_position(groups.drop_first(), object);
        if r < 0 {
            -1
        } else {
            r + 1
        }
    }
}

/// The groups of a WritePropertyMultiple request: each write is appended to
/// the group of its object, and an object not seen before opens a new group
/// at the end.
pub open spec fn grouped_writes(items: Seq<((u16, u32), PropertyValueView)>) -> Seq<WriteGroupView>
    decreases items.len(),
{
    if items.len() == 0 {
        Seq::empty()
    } else {
        let groups = grouped_writes(items.drop_last());
        let object = items.last().0;
        let value = items.last().1;
        let k = group_position(groups, object);
        if k >= 0 {
            groups.update(k, WriteGroupView { object, properties: groups[k].properties.push(value) })
        } else {
            groups.push(WriteGroupView { object, properties: seq![value] })
        }
    }
}

/// The mathematical form of a list of write specifications.
pub open spec fn group_views(specs: Seq<WriteAccessSpec>) -> Seq<WriteGroupView> {
    specs.map_values(|s: WriteAccessSpec| s@)
}

proof fn lemma_group_position(groups: Seq<WriteGroupView>, object: (u16, u32))
    ensures
        group_position(groups, object) < groups.len(),
        group_position(groups, object) >= 0 ==> groups[group_position(groups, object)].object
            == object,
        group_position(groups, object) >= 0 ==> forall|i: int|
            0 <= i < group_position(groups, object) ==> groups[i].object != object,
        group_position(groups, object) < 0 ==> forall|i: int|
            0 <= i < groups.len() ==> groups[i].object != object,
    decreases groups.len(),
{
    if groups.len() > 0 && groups[0].object != object {
        let rest = groups.drop_first();
        lemma_group_position(rest, object);
        assert forall|i: int| 1 <= i < groups.len() implies groups[i] == rest[i - 1] by {}
    }
}

fn property_value_of(w: &(PropertyRead, Vec<u8>, Option<u8>)) -> (r: PropertyValueWrite)
    ensures
        r@ == write_item(*w).1,
{
    PropertyValueWrite {
        property_id: w.0.property_id,
        array_index: w.0.array_index,
        value: copy_mac(w.1.as_slice()),
        priority: w.2,
    }
}

/// The WritePropertyMultiple request for `writes`: one specification per
/// object, in the order in which the objects first occur, each holding the
/// values written to that object in request order. The first write whose
/// object reference is not encodable makes the whole request an error.
pub fn write_multiple_request(writes: &[(PropertyRead, Vec<u8>, Option<u8>)]) -> (r: Result<
    ClientRequest,
    RuntimeError,
>)
    ensures
        r is Ok <==> forall|i: int|
            0 <= i < writes@.len() ==> valid_object(
                #[trigger] writes@[i].0.object_type,
                writes@[i].0.object_instance,
            ),
        r matches Ok(req) ==> (req matches ClientRequest::WritePropertyMultiple { specs }
            && group_views(specs@) == grouped_writes(write_items(writes@))),
        r matches Err(e) ==> object_error(e),
{
    let mut specs: Vec<WriteAccessSpec> = Vec::new();
    let mut i: usize = 0;
    while i < writes.len()
        invariant
            i <= writes@.len(),
            forall|j: int|
                0 <= j < i ==> valid_object(
                    #[trigger] writes@[j].0.object_type,
                    writes@[j].0.object_instance,
                ),
            group_views(specs@) == grouped_writes(write_items(writes@).take(i as int)),
        decreases writes@.len() - i,
    {
        let w = &writes[i];
        let object = match resolve_object(w.0.object_type, w.0.object_instance) {
            Ok(object) => object,
            Err(e) => {
                return Err(e);
            },
        };
        let property = property_value_of(w);
        let ghost items = write_items(writes@);
        let ghost before = group_views(specs@);
        proof {
            assert(items.take(i as int + 1).drop_last() =~= items.take(i as int));
            assert(items.take(i as int + 1).last() == write_item(writes@[i as int]));
            lemma_group_position(before, object_key(object));
        }
        let mut k: usize = 0;
        while k < specs.len()
            invariant
                k <= specs@.len(),
                before == group_views(specs@),
                forall|j: int| 0 <= j < k ==> (#[trigger] before[j]).object != object_key(object),
            ensures
                k <= specs@.len(),
                k < specs@.len() ==> before[k as int].object == object_key(object),
                k == specs@.len() ==> forall|j: int|
                    0 <= j < k ==> (#[trigger] before[j]).object != object_key(object),
            decreases specs@.len() - k,
        {
            if specs[k].object == object {
                break;
            }
            proof {
                lemma_identifier_by_parts(specs@[k as int].object, object);
            }
            k = k + 1;
        }
        if k < specs.len() {
            assert(group_position(before, object_key(object)) == k as int);
            specs[k].properties.push(property);
            proof {
                assert(specs@[k as int]@.properties =~= before[k as int].properties.push(property@));
                assert(group_views(specs@) =~= before.update(
                    k as int,
                    WriteGroupView {
                        object: object_key(object),
                        properties: before[k as int].properties.push(property@),
                    },
                ));
            }
        } else {
            assert(group_position(before, object_key(object)) < 0);
            let mut properties: Vec<PropertyValueWrite> = Vec::new();
            properties.push(property);
            specs.push(WriteAccessSpec { object, properties });
            proof {
                assert(specs@[k as int]@.properties =~= seq![property@]);
                assert(group_views(specs@) =~= before.push(
                    WriteGroupView { object: object_key(object), properties: seq![property@] },
                ));
            }
        }
        i = i + 1;
    }
    assert(write_items(writes@).take(i as int) =~= write_items(writes@));
    Ok(ClientRequest::WritePropertyMultiple { specs })
}

/// The values written to `object`, in request order.
pub open spec fn values_for(items: Seq<((u16, u32), PropertyValueView)>, object: (u16, u32)) -> Seq<
    PropertyValueView,
> {
    items.filter_map(
        |it: ((u16, u32), PropertyValueView)|
            if it.0 == object {
                Some(it.1)
            } else {
                None
            },
    )
}

/// Grouping the writes of a WritePropertyMultiple request loses, duplicates
/// and reorders nothing: no object has two specifications, no specification
/// is empty, every written object has one, and each holds exactly the values
/// written to its object, in request order.
pub proof fn lemma_grouping_partitions_writes(items: Seq<((u16, u32), PropertyValueView)>)
    ensures
        forall|i: int, j: int|
            0 <= i < j < grouped_writes(items).len() ==> (#[trigger] grouped_writes(items)[i]).object
                != (#[trigger] grouped_writes(items)[j]).object,
        forall|j: int|
            0 <= j < grouped_writes(items).len() ==> (#[trigger] grouped_writes(items)[j]).properties
                == values_for(items, grouped_writes(items)[j].object)
                && grouped_writes(items)[j].properties.len() > 0,
        forall|object: (u16, u32)|
            #[trigger] values_for(items, object).len() > 0 ==> exists|j: int|
                0 <= j < grouped_writes(items).len() && grouped_writes(items)[j].object == object,
    decreases items.len(),
{
    if items.len() > 0 {
        let rest = items.drop_last();
        lemma_grouping_partitions_writes(rest);
        let groups = grouped_writes(rest);
        let object = items.last().0;
        let value = items.last().1;
        lemma_group_position(groups, object);
        let k = group_position(groups, object);
        let after = grouped_writes(items);
        assert forall|o: (u16, u32)| o != object implies values_for(items, o) == values_for(rest, o) by {
        }
        assert(values_for(items, object) =~= values_for(rest, object).push(value));
        if k >= 0 {
            assert forall|j: int| 0 <= j < after.len() implies (#[trigger] after[j]).properties
                == values_for(items, after[j].object) && after[j].properties.len() > 0 by {
                if j != k {
                    assert(groups[j].object != object);
                }
            }
            assert forall|o: (u16, u32)| #[trigger]
                values_for(items, o).len() > 0 implies exists|j: int|
                0 <= j < after.len() && after[j].object == o by {
                if o == object {
                    assert(after[k].object == o);
                } else {
                    let j = choose|j: int| 0 <= j < groups.len() && groups[j].object == o;
                    assert(after[j].object == o);
                }
            }
        } else {
            assert(values_for(rest, object).len() == 0) by {
                if values_for(rest, object).len() > 0 {
                    let j = choose|j: int| 0 <= j < groups.len() && groups[j].object == object;
                    assert(groups[j].object == object);
                }
            }
            assert(values_for(items, object) =~= seq![value]);
            assert forall|j: int| 0 <= j < after.len() implies (#[trigger] after[j]).properties
                == values_for(items, after[j].object) && after[j].properties.len() > 0 by {
                if j < groups.len() {
                    assert(groups[j].object != object);
                }
            }
            assert forall|o: (u16, u32)| #[trigger]
                values_for(items, o).len() > 0 implies exists|j: int|
                0 <= j < after.len() && after[j].object == o by {
                if o == object {
                    assert(after[groups.len() as int].object == o);
                } else {
                    let j = choose|j: int| 0 <= j < groups.len() && groups[j].object == o;
                    assert(after[j].object == o);
                }
            }
        }
    }
}

} // verus!
