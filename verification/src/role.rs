//! What a device behind the bridge is, told from the properties set on it.
use vstd::prelude::*;

use crate::host::{Instance, InstanceView, LocalId};
use crate::text::same;

verus! {

/// What a given device behind this bridge actually is.
///
/// A bulb has a `Light id` and a keypad does not: the properties that adoption set are the signal.
#[derive(Clone, Copy, Debug, PartialEq, Eq, Structural)]
pub enum Role {
    /// The hub. Holds the address and key, owns the event stream, and is not in any room.
    Bridge,
    Bulb,
    Motion,
    /// A keypad, remote, wall module or dial.
    Control,
}

/// The role that a device's properties give it.
pub open spec fn role_of(inst: InstanceView) -> Role {
    if inst.has("Light id"@) {
        Role::Bulb
    } else if inst.has("Motion id"@) {
        Role::Motion
    } else if inst.has("Button 1 id"@) || inst.has("Rotary id"@) {
        Role::Control
    } else {
        Role::Bridge
    }
}

/// One binding, if its property is set.
pub open spec fn binding(inst: InstanceView, property: Seq<char>, id: LocalId) -> Seq<LocalId> {
    if inst.has(property) {
        seq![id]
    } else {
        Seq::empty()
    }
}

impl Role {
    /// Every binding that a device of this role has, in order.
    pub open spec fn spec_bindings(self, inst: InstanceView) -> Seq<LocalId> {
        match self {
            Role::Bridge | Role::Bulb => seq![1],
            Role::Motion => binding(inst, "Motion id"@, 1) + binding(inst, "Temperature id"@, 2)
                + binding(inst, "Light level id"@, 3),
            Role::Control => binding(inst, "Button 1 id"@, 1) + binding(inst, "Button 2 id"@, 2)
                + binding(inst, "Button 3 id"@, 3) + binding(inst, "Button 4 id"@, 4) + binding(
                inst,
                "Rotary id"@,
                5,
            ),
        }
    }

    /// The properties that hold this role's resource ids.
    pub open spec fn spec_id_properties(self) -> Seq<Seq<char>> {
        match self {
            Role::Bridge => Seq::empty(),
            Role::Bulb => seq!["Light id"@],
            Role::Motion => seq!["Motion id"@, "Temperature id"@, "Light level id"@],
            Role::Control => seq![
                "Button 1 id"@,
                "Button 2 id"@,
                "Button 3 id"@,
                "Button 4 id"@,
                "Rotary id"@,
            ],
        }
    }

    /// Whether a resource id is one that the device answers to: any of its own is enough.
    pub open spec fn spec_owns(self, inst: InstanceView, rid: Seq<char>) -> bool {
        &&& rid.len() > 0
        &&& exists|i: int|
            0 <= i < self.spec_id_properties().len() && inst.text(
                #[trigger] self.spec_id_properties()[i],
            ) == Some(rid)
    }

    /// The role of a device.
    pub fn of(inst: &Instance) -> (r: Role)
        ensures
            r == role_of(inst@),
    {
        if inst.has("Light id") {
            Role::Bulb
        } else if inst.has("Motion id") {
            Role::Motion
        } else if inst.has("Button 1 id") || inst.has("Rotary id") {
            Role::Control
        } else {
            Role::Bridge
        }
    }

    /// Every binding that the device has, so that all of them can be brought online at bind.
    pub fn bindings(self, inst: &Instance) -> (r: Vec<LocalId>)
        ensures
            r@ == self.spec_bindings(inst@),
    {
        let mut out: Vec<LocalId> = Vec::new();
        match self {
            Role::Bridge | Role::Bulb => {
                out.push(1);
            },
            Role::Motion => {
                bind(&mut out, inst, "Motion id", 1);
                bind(&mut out, inst, "Temperature id", 2);
                bind(&mut out, inst, "Light level id", 3);
                assert(out@ =~= self.spec_bindings(inst@));
            },
            Role::Control => {
                bind(&mut out, inst, "Button 1 id", 1);
                bind(&mut out, inst, "Button 2 id", 2);
                bind(&mut out, inst, "Button 3 id", 3);
                bind(&mut out, inst, "Button 4 id", 4);
                bind(&mut out, inst, "Rotary id", 5);
                assert(out@ =~= self.spec_bindings(inst@));
            },
        }
        out
    }

    /// The properties holding this role's CLIP v2 resource ids.
    ///
    /// Apart from [`Role::bindings`], because a device's identity on the bridge is not the same
    /// list as the bindings it drives: a role that gains a service does not silently gain a way
    /// to be deleted.
    pub fn id_properties(self) -> (r: Vec<&'static str>)
        ensures
            names(r@) == self.spec_id_properties(),
    {
        let mut out: Vec<&'static str> = Vec::new();
        match self {
            Role::Bridge => {},
            Role::Bulb => {
                out.push("Light id");
            },
            Role::Motion => {
                out.push("Motion id");
                out.push("Temperature id");
                out.push("Light level id");
            },
            Role::Control => {
                out.push("Button 1 id");
                out.push("Button 2 id");
                out.push("Button 3 id");
                out.push("Button 4 id");
                out.push("Rotary id");
            },
        }
        assert(names(out@) =~= self.spec_id_properties());
        out
    }

    /// Whether a CLIP v2 resource id is one this device answers to.
    ///
    /// Any of them is enough. A motion sensor is one piece of hardware with three services on
    /// it, and unpairing it deletes all three.
    pub fn owns(self, inst: &Instance, rid: &str) -> (r: bool)
        ensures
            r == self.spec_owns(inst@, rid@),
    {
        if rid.is_empty() {
            return false;
        }
        let properties = self.id_properties();
        let mut i: usize = 0;
        while i < properties.len()
            invariant
                i <= properties.len(),
                names(properties@) == self.spec_id_properties(),
                rid@.len() > 0,
                forall|k: int|
                    0 <= k < i ==> inst@.text(#[trigger] self.spec_id_properties()[k]) != Some(rid@),
            decreases properties.len() - i,
        {
            assert(properties@[i as int]@ == self.spec_id_properties()[i as int]);
            match inst.text(properties[i]) {
                Some(mine) => {
                    if same(mine, rid) {
                        return true;
                    }
                },
                None => {},
            }
            i += 1;
        }
        false
    }
}

/// The characters of each name.
pub open spec fn names(s: Seq<&'static str>) -> Seq<Seq<char>> {
    Seq::new(s.len(), |i: int| s[i]@)
}

fn bind(out: &mut Vec<LocalId>, inst: &Instance, property: &str, id: LocalId)
    ensures
        final(out)@ == old(out)@ + binding(inst@, property@, id),
{
    if inst.has(property) {
        out.push(id);
    }
    assert(out@ =~= old(out)@ + binding(inst@, property@, id));
}

} // verus!
