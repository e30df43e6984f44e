//! One entity's movement through a tick: which contact stops a sub-step, and
//! how sub-steps follow each other until the entity rests.
use crate::closest::{holder_insert_le, holder_into_value, holder_new, kept};
use crate::geometry::{LineSegment, Segment, Vector, Vector2};
use vstd::prelude::*;

verus! {

/// The handle of an entity.
pub type EntityId = u32;

/// Hands out entity handles in rising order.
pub struct EntityIdAllocator {
    next: u32,
}

impl View for EntityIdAllocator {
    type V = nat;

    /// The handle that is handed out next.
    closed spec fn view(&self) -> nat {
        self.next as nat
    }
}

impl Default for EntityIdAllocator {
    fn default() -> (allocator: Self)
        ensures
            allocator@ == 0,
    {
        EntityIdAllocator { next: 0 }
    }
}

impl EntityIdAllocator {
    /// The handle that [`allocate`](Self::allocate) would hand out.
    pub fn peek(&self) -> (id: EntityId)
        ensures
            id == self@,
    {
        self.next
    }

    /// Hands out a handle: one greater than the one before, so that none
    /// comes twice.
    pub fn allocate(&mut self) -> (id: EntityId)
        requires
            old(self)@ < u32::MAX,
        ensures
            id == old(self)@,
            final(self)@ == old(self)@ + 1,
    {
        let id = self.next;
        self.next += 1;
        id
    }

    /// Starts over from the first handle.
    pub fn reset(&mut self)
        ensures
            final(self)@ == 0,
    {
        self.next = 0;
    }
}

/// What the test of two shapes reports of a contact on the mover's way.
#[derive(Debug, Clone, Copy, PartialEq, Eq, Structural)]
pub struct CollisionInfo {
    /// The squared distance to the contact.
    pub magnitude2: i64,
    /// The part of the movement that may be made before the contact.
    pub allowed_movement: Vector2,
    /// The edge that is touched.
    pub line_segment: LineSegment,
}

/// A [`CollisionInfo`] as contracts see it.
pub struct Contact {
    pub magnitude2: int,
    pub allowed_movement: Vector,
    pub line_segment: Segment,
}

impl View for CollisionInfo {
    type V = Contact;

    open spec fn view(&self) -> Contact {
        Contact {
            magnitude2: self.magnitude2 as int,
            allowed_movement: self.allowed_movement@,
            line_segment: self.line_segment@,
        }
    }
}

/// The contacts of a list as contracts see them.
pub open spec fn contacts_view(contacts: Seq<CollisionInfo>) -> Seq<Contact> {
    contacts.map_values(|info: CollisionInfo| info@)
}

/// The index of the contact that stops the mover: of those with the least
/// squared distance, the one that comes last in the list.
pub open spec fn nearest(contacts: Seq<Contact>) -> int
    recommends
        contacts.len() > 0,
    decreases contacts.len(),
{
    if contacts.len() <= 1 {
        0
    } else {
        let before = nearest(contacts.drop_last());
        if contacts.last().magnitude2 <= contacts[before].magnitude2 {
            contacts.len() - 1
        } else {
            before
        }
    }
}

/// No contact of the list is nearer than the one at `index`, and none after
/// it is as near.
pub open spec fn is_last_of_the_nearest(contacts: Seq<Contact>, index: int) -> bool {
    &&& 0 <= index < contacts.len()
    &&& forall|i: int|
        0 <= i < contacts.len() ==> contacts[index].magnitude2 <= (
        #[trigger] contacts[i]).magnitude2
    &&& forall|i: int|
        index < i < contacts.len() ==> contacts[index].magnitude2 < (
        #[trigger] contacts[i]).magnitude2
}

/// [`nearest`] is the last of the nearest contacts, and nothing else is.
pub proof fn lemma_nearest_is_last_of_the_nearest(contacts: Seq<Contact>)
    requires
        contacts.len() > 0,
    ensures
        is_last_of_the_nearest(contacts, nearest(contacts)),
        forall|index: int| is_last_of_the_nearest(contacts, index) ==> index == nearest(contacts),
    decreases contacts.len(),
{
    if contacts.len() > 1 {
        let front = contacts.drop_last();
        lemma_nearest_is_last_of_the_nearest(front);
        let before = nearest(front);
        assert(front[before] == contacts[before]);
        assert forall|i: int| 0 <= i < front.len() implies contacts[before].magnitude2 <= (
        #[trigger] contacts[i]).magnitude2 by {
            assert(front[i] == contacts[i]);
        }
        assert forall|i: int| before < i < front.len() implies contacts[before].magnitude2 < (
        #[trigger] contacts[i]).magnitude2 by {
            assert(front[i] == contacts[i]);
        }
    }
    let chosen = nearest(contacts);
    assert forall|index: int| is_last_of_the_nearest(contacts, index) implies index == chosen by {
        if index < chosen {
            assert(contacts[index].magnitude2 < contacts[chosen].magnitude2);
            assert(contacts[chosen].magnitude2 <= contacts[index].magnitude2);
        } else if chosen < index {
            assert(contacts[chosen].magnitude2 < contacts[index].magnitude2);
            assert(contacts[index].magnitude2 <= contacts[chosen].magnitude2);
        }
    }
}

/// How one sub-step of a movement ends.
#[derive(Debug, Clone, Copy, PartialEq, Eq, Structural)]
pub enum MovementStep {
    /// There is nothing to move by, or nothing to sweep: the entity stays.
    NoMovement,
    /// Nothing is in the way: the entity arrives at `destination`.
    NoCollision { destination: Vector2 },
    /// Something is in the way: the entity moves by `allowed_movement` to
    /// `destination`, where it touches `line_segment`.
    Collision { allowed_movement: Vector2, destination: Vector2, line_segment: LineSegment },
}

/// A [`MovementStep`] as contracts see it.
pub enum Step {
    NoMovement,
    NoCollision { destination: Vector },
    Collision { allowed_movement: Vector, destination: Vector, line_segment: Segment },
}

impl View for MovementStep {
    type V = Step;

    open spec fn view(&self) -> Step {
        match *self {
            MovementStep::NoMovement => Step::NoMovement,
            MovementStep::NoCollision { destination } => Step::NoCollision {
                destination: destination@,
            },
            MovementStep::Collision {
                allowed_movement,
                destination,
                line_segment,
            } => Step::Collision {
                allowed_movement: allowed_movement@,
                destination: destination@,
                line_segment: line_segment@,
            },
        }
    }
}

/// How a sub-step from `position` by `movement` ends, given the contacts on
/// the way; `None` stands for a mover without a shape, of which nothing can
/// be swept.
///
/// Without movement or without a shape the entity stays. With nothing in
/// the way it makes the whole movement. Else it makes the movement that the
/// [`nearest`] contact allows.
pub open spec fn step(position: Vector, movement: Vector, contacts: Option<Seq<Contact>>) -> Step {
    if movement.is_zero() {
        Step::NoMovement
    } else {
        match contacts {
            None => Step::NoMovement,
            Some(contacts) => if contacts.len() == 0 {
                Step::NoCollision { destination: position.plus(movement) }
            } else {
                let contact = contacts[nearest(contacts)];
                Step::Collision {
                    allowed_movement: contact.allowed_movement,
                    destination: position.plus(contact.allowed_movement),
                    line_segment: contact.line_segment,
                }
            },
        }
    }
}

/// The position in which [`step`] ends can be held in `i64` coordinates.
pub open spec fn step_fits(
    position: Vector,
    movement: Vector,
    contacts: Option<Seq<Contact>>,
) -> bool {
    match step(position, movement, contacts) {
        Step::NoMovement => true,
        Step::NoCollision { destination } => destination.fits(),
        Step::Collision { destination, .. } => destination.fits(),
    }
}

/// The contacts handed to a sub-step as contracts see them.
pub open spec fn sweep_view(contacts: Option<&Vec<CollisionInfo>>) -> Option<Seq<Contact>> {
    match contacts {
        Some(contacts) => Some(contacts_view(contacts@)),
        None => None,
    }
}

/// The index of the nearest contact of a list, or nothing for an empty list.
pub fn nearest_contact(contacts: &Vec<CollisionInfo>) -> (chosen: Option<usize>)
    ensures
        contacts.len() == 0 <==> chosen is None,
        chosen matches Some(index) ==> index < contacts.len() && index == nearest(
            contacts_view(contacts@),
        ),
{
    let ghost all = contacts_view(contacts@);
    let mut closest_collision = holder_new();
    let mut i: usize = 0;
    while i < contacts.len()
        invariant
            0 <= i <= contacts.len(),
            all == contacts_view(contacts@),
            i == 0 ==> kept(closest_collision).len() == 0,
            i > 0 ==> 0 <= nearest(all.take(i as int)) < i,
            i > 0 ==> kept(closest_collision) == seq![
                (
                    contacts[nearest(all.take(i as int))].magnitude2,
                    nearest(all.take(i as int)) as usize,
                ),
            ],
        decreases contacts.len() - i,
    {
        proof {
            let grown = all.take(i as int + 1);
            assert(grown.drop_last() == all.take(i as int));
            assert(grown.last() == contacts[i as int]@);
            if i > 0 {
                let before = nearest(all.take(i as int));
                assert(grown[before] == contacts[before]@);
            }
        }
        holder_insert_le(&mut closest_collision, contacts[i].magnitude2, i);
        i += 1;
    }
    proof {
        assert(all.take(contacts.len() as int) == all);
    }
    holder_into_value(closest_collision)
}

/// Decides how a sub-step from `position` by `movement` ends.
///
/// `contacts` holds what the mover's shape would touch on the way, in the
/// order in which it was found; `None` stands for a mover without a shape.
pub fn movement_step(
    position: Vector2,
    movement: Vector2,
    contacts: Option<&Vec<CollisionInfo>>,
) -> (outcome: MovementStep)
    requires
        step_fits(position@, movement@, sweep_view(contacts)),
    ensures
        outcome@ == step(position@, movement@, sweep_view(contacts)),
{
    if movement.is_zero() {
        return MovementStep::NoMovement;
    }
    if let Some(contacts) = contacts {
        return match nearest_contact(contacts) {
            None => MovementStep::NoCollision { destination: position.plus(movement) },
            Some(index) => {
                let info = contacts[index];
                MovementStep::Collision {
                    allowed_movement: info.allowed_movement,
                    destination: position.plus(info.allowed_movement),
                    line_segment: info.line_segment,
                }
            },
        };
    }
    MovementStep::NoMovement
}

/// The number of sub-steps after which a movement is given up for the tick.
pub const MAX_ITERATIONS: usize = 16;

/// Where the resolution of one entity's movement stands, and with it what
/// its caller is to do next.
///
/// The resolution decides; its caller finds the contacts of each sweep and
/// turns what is left of a stopped movement into a slide.
#[derive(Debug, Clone, Copy, PartialEq, Eq, Structural)]
pub enum Resolution {
    /// A sub-step is due. The caller finds what the mover touches on its way
    /// from `position` by `movement` and hands it to
    /// [`swept`](Resolution::swept). `iteration` counts the sub-steps made.
    Sweeping { position: Vector2, movement: Vector2, iteration: usize },
    /// The sub-step ended in contact with `line_segment`, at `position`. The
    /// caller turns `remaining_movement` into a movement along the segment
    /// and hands it to [`slid`](Resolution::slid).
    Sliding {
        position: Vector2,
        remaining_movement: Vector2,
        line_segment: LineSegment,
        iteration: usize,
    },
    /// The entity rests at `position`.
    Settled { position: Vector2 },
}

/// A [`Resolution`] as contracts see it.
pub enum Progress {
    Sweeping { position: Vector, movement: Vector, iteration: nat },
    Sliding { position: Vector, remaining_movement: Vector, line_segment: Segment, iteration: nat },
    Settled { position: Vector },
}

impl View for Resolution {
    type V = Progress;

    open spec fn view(&self) -> Progress {
        match *self {
            Resolution::Sweeping { position, movement, iteration } => Progress::Sweeping {
                position: position@,
                movement: movement@,
                iteration: iteration as nat,
            },
            Resolution::Sliding {
                position,
                remaining_movement,
                line_segment,
                iteration,
            } => Progress::Sliding {
                position: position@,
                remaining_movement: remaining_movement@,
                line_segment: line_segment@,
                iteration: iteration as nat,
            },
            Resolution::Settled { position } => Progress::Settled { position: position@ },
        }
    }
}

impl Progress {
    /// Where a movement of an entity at `position` starts: nowhere without a
    /// position, at rest without a movement, else with the first sub-step.
    pub open spec fn begin(position: Option<Vector>, movement: Vector) -> Option<Progress> {
        match position {
            None => None,
            Some(position) => Some(
                if movement.is_zero() {
                    Progress::Settled { position }
                } else {
                    Progress::Sweeping { position, movement, iteration: 0 }
                },
            ),
        }
    }

    /// Where the resolution stands once the contacts of the sub-step that is
    /// due are known. The step ends as [`step`] says. After a contact a slide
    /// follows, unless the sub-step was the last that a tick allows. A
    /// resolution that waits for no contacts stays as it is.
    pub open spec fn swept(self, contacts: Option<Seq<Contact>>) -> Progress {
        match self {
            Progress::Sweeping { position, movement, iteration } => match step(
                position,
                movement,
                contacts,
            ) {
                Step::NoMovement => Progress::Settled { position },
                Step::NoCollision { destination } => Progress::Settled { position: destination },
                Step::Collision { allowed_movement, destination, line_segment } => if iteration + 1
                    >= MAX_ITERATIONS {
                    Progress::Settled { position: destination }
                } else {
                    Progress::Sliding {
                        position: destination,
                        remaining_movement: movement.minus(allowed_movement),
                        line_segment,
                        iteration,
                    }
                },
            },
            _ => self,
        }
    }

    /// Where the resolution stands once the slide is known: at rest where
    /// the slide is zero, else at the next sub-step, which moves by the
    /// slide. A resolution that waits for no slide stays as it is.
    pub open spec fn slid(self, slide_movement: Vector) -> Progress {
        match self {
            Progress::Sliding { position, iteration, .. } => if slide_movement.is_zero()
                || iteration + 1 >= MAX_ITERATIONS {
                Progress::Settled { position }
            } else {
                Progress::Sweeping { position, movement: slide_movement, iteration: iteration + 1 }
            },
            _ => self,
        }
    }

    /// The position of the entity once it rests.
    pub open spec fn resting_place(self) -> Option<Vector> {
        match self {
            Progress::Settled { position } => Some(position),
            _ => None,
        }
    }

    /// A bound on the number of turns, sweeps and slides together, that are
    /// left before the entity rests.
    pub open spec fn turns_left(self) -> nat {
        match self {
            Progress::Sweeping { iteration, .. } => if iteration + 1 >= MAX_ITERATIONS {
                2
            } else {
                (2 * (MAX_ITERATIONS - iteration)) as nat
            },
            Progress::Sliding { iteration, .. } => if iteration + 1 >= MAX_ITERATIONS {
                1
            } else {
                (2 * (MAX_ITERATIONS - iteration) - 1) as nat
            },
            Progress::Settled { .. } => 0,
        }
    }

    /// What [`Resolution::swept`] computes can be held in `i64` coordinates:
    /// the position in which the sub-step ends, and what is left of the
    /// movement where a slide follows.
    pub open spec fn sweep_fits(self, contacts: Option<Seq<Contact>>) -> bool {
        match self {
            Progress::Sweeping { position, movement, iteration } => {
                &&& step_fits(position, movement, contacts)
                &&& self.swept(contacts) matches Progress::Sliding { remaining_movement, .. }
                    ==> remaining_movement.fits()
            },
            _ => true,
        }
    }
}

impl Resolution {
    /// Starts the resolution of a movement of the entity at `position`.
    /// There is none for an entity without a position.
    pub fn begin(position: Option<Vector2>, movement: Vector2) -> (resolution: Option<Resolution>)
        ensures
            resolution_view(resolution) == Progress::begin(position_view(position), movement@),
    {
        match position {
            None => None,
            Some(position) => Some(
                if movement.is_zero() {
                    Resolution::Settled { position }
                } else {
                    Resolution::Sweeping { position, movement, iteration: 0 }
                },
            ),
        }
    }

    /// Whether [`swept`](Resolution::swept) can make the step with these
    /// contacts: whether the position that it leads to, and what it leaves
    /// of the movement, can be held in `i64` coordinates.
    pub fn can_sweep(&self, contacts: Option<&Vec<CollisionInfo>>) -> (fits: bool)
        ensures
            fits == self@.sweep_fits(sweep_view(contacts)),
    {
        match *self {
            Resolution::Sweeping { position, movement, iteration } => {
                if movement.is_zero() {
                    return true;
                }
                match contacts {
                    None => true,
                    Some(contacts) => match nearest_contact(contacts) {
                        None => position.checked_plus(movement).is_some(),
                        Some(index) => {
                            let allowed_movement = contacts[index].allowed_movement;
                            position.checked_plus(allowed_movement).is_some() && (iteration
                                >= MAX_ITERATIONS - 1 || movement.checked_minus(
                                allowed_movement,
                            ).is_some())
                        },
                    },
                }
            },
            _ => true,
        }
    }

    /// Takes the contacts of the sub-step that is due and makes the step.
    pub fn swept(self, contacts: Option<&Vec<CollisionInfo>>) -> (next: Resolution)
        requires
            self@.sweep_fits(sweep_view(contacts)),
        ensures
            next@ == self@.swept(sweep_view(contacts)),
    {
        match self {
            Resolution::Sweeping { position, movement, iteration } => match movement_step(
                position,
                movement,
                contacts,
            ) {
                MovementStep::NoMovement => Resolution::Settled { position },
                MovementStep::NoCollision { destination } => Resolution::Settled {
                    position: destination,
                },
                MovementStep::Collision { allowed_movement, destination, line_segment } => {
                    if iteration >= MAX_ITERATIONS - 1 {
                        Resolution::Settled { position: destination }
                    } else {
                        Resolution::Sliding {
                            position: destination,
                            remaining_movement: movement.minus(allowed_movement),
                            line_segment,
                            iteration,
                        }
                    }
                },
            },
            _ => self,
        }
    }

    /// Takes the slide that follows a contact.
    pub fn slid(self, slide_movement: Vector2) -> (next: Resolution)
        ensures
            next@ == self@.slid(slide_movement@),
    {
        match self {
            Resolution::Sliding { position, iteration, .. } => {
                if slide_movement.is_zero() || iteration >= MAX_ITERATIONS - 1 {
                    Resolution::Settled { position }
                } else {
                    Resolution::Sweeping {
                        position,
                        movement: slide_movement,
                        iteration: iteration + 1,
                    }
                }
            },
            _ => self,
        }
    }
}

/// A position that may be missing, as contracts see it.
pub open spec fn position_view(position: Option<Vector2>) -> Option<Vector> {
    match position {
        Some(position) => Some(position@),
        None => None,
    }
}

/// A resolution that may be missing, as contracts see it.
pub open spec fn resolution_view(resolution: Option<Resolution>) -> Option<Progress> {
    match resolution {
        Some(resolution) => Some(resolution@),
        None => None,
    }
}

/// An entity that is asked to move by nothing rests where it is, whatever is
/// around it, and as often as it is asked: no sub-step moves it, and its
/// resolution is at rest from the start, at the position that it had.
pub proof fn lemma_no_movement_is_rest(position: Vector, contacts: Option<Seq<Contact>>)
    ensures
        step(position, Vector::zero(), contacts) == Step::NoMovement,
        Progress::begin(Some(position), Vector::zero()) == Some(Progress::Settled { position }),
        Progress::begin(
            Progress::begin(Some(position), Vector::zero())->Some_0.resting_place(),
            Vector::zero(),
        ) == Progress::begin(Some(position), Vector::zero()),
{
}

/// An entity that moves with nothing in its way makes the whole of its
/// movement in one sub-step and then rests.
pub proof fn lemma_open_space_is_crossed(position: Vector, movement: Vector)
    requires
        !movement.is_zero(),
    ensures
        step(position, movement, Some(Seq::<Contact>::empty())) == (Step::NoCollision {
            destination: position.plus(movement),
        }),
        Progress::begin(Some(position), movement)->Some_0.swept(Some(Seq::<Contact>::empty()))
            == (Progress::Settled { position: position.plus(movement) }),
{
}

/// Each turn of a resolution that is not at rest brings rest nearer, and no
/// resolution is more than twice [`MAX_ITERATIONS`] turns away from it: a
/// caller that answers each request comes to an end, after at most
/// [`MAX_ITERATIONS`] sweeps.
pub proof fn lemma_rest_comes_nearer(
    progress: Progress,
    contacts: Option<Seq<Contact>>,
    slide_movement: Vector,
)
    ensures
        progress.turns_left() <= 2 * MAX_ITERATIONS,
        progress.turns_left() == 0 <==> progress is Settled,
        progress is Sweeping ==> progress.swept(contacts).turns_left() < progress.turns_left(),
        progress is Sliding ==> progress.slid(slide_movement).turns_left() < progress.turns_left(),
{
}

} // verus!
