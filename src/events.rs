use vstd::prelude::*;

verus! {

/// The kinds of simulation events the visualizer listens to.
#[derive(Clone, Copy, Debug, PartialEq, Eq, Structural)]
pub enum RobotEvent {
    Ready,
    Terminated,
    TimeChanged,
    DayChanged,
    EnergyRecharged,
    EnergyConsumed,
    Moved,
    TileContentUpdated,
    AddedToBackpack,
    RemovedFromBackpack,
}

/// A sound that accompanies an event.
#[derive(Clone, Copy, Debug, PartialEq, Eq, Structural)]
pub enum SoundCue {
    TimeChanged,
    AddedToBackpack,
    RemovedFromBackpack,
}

/// What the visualizer does in answer to one event.
#[derive(Clone, Copy, Debug, PartialEq, Eq, Structural)]
pub struct EventReaction {
    /// Remove the images of an earlier run from the image directory.
    pub clear_images: bool,
    /// Publish the robot's energy level.
    pub update_energy: bool,
    /// Publish the robot's coordinates.
    pub update_coordinates: bool,
    /// Hand the current discovered map to the frame ledger.
    pub add_frame: bool,
    /// Publish the backpack's contents.
    pub update_backpack: bool,
    /// The sound to play, if sounds are on.
    pub sound: Option<SoundCue>,
}

/// The reaction owed to `event`: the run's start clears old images, energy events publish
/// the energy, a move publishes the coordinates and records a frame, backpack changes
/// publish the backpack; sounds only when `play_sounds` is set.
pub open spec fn reaction_spec(event: RobotEvent, play_sounds: bool) -> EventReaction {
    EventReaction {
        clear_images: event is Ready,
        update_energy: event is EnergyRecharged || event is EnergyConsumed,
        update_coordinates: event is Moved,
        add_frame: event is Moved,
        update_backpack: event is AddedToBackpack || event is RemovedFromBackpack,
        sound: if !play_sounds {
            None
        } else {
            match event {
                RobotEvent::TimeChanged => Some(SoundCue::TimeChanged),
                RobotEvent::AddedToBackpack => Some(SoundCue::AddedToBackpack),
                RobotEvent::RemovedFromBackpack => Some(SoundCue::RemovedFromBackpack),
                _ => None,
            }
        },
    }
}

/// Decides how the visualizer answers a simulation event.
pub fn react_to_event(event: RobotEvent, play_sounds: bool) -> (r: EventReaction)
    ensures
        r == reaction_spec(event, play_sounds),
{
    let none = EventReaction {
        clear_images: false,
        update_energy: false,
        update_coordinates: false,
        add_frame: false,
        update_backpack: false,
        sound: None,
    };
    match event {
        RobotEvent::Ready => EventReaction { clear_images: true, ..none },
        RobotEvent::EnergyRecharged | RobotEvent::EnergyConsumed => EventReaction {
            update_energy: true,
            ..none
        },
        RobotEvent::Moved => EventReaction { update_coordinates: true, add_frame: true, ..none },
        RobotEvent::TimeChanged => EventReaction {
            sound: if play_sounds {
                Some(SoundCue::TimeChanged)
            } else {
                None
            },
            ..none
        },
        RobotEvent::AddedToBackpack => EventReaction {
            update_backpack: true,
            sound: if play_sounds {
                Some(SoundCue::AddedToBackpack)
            } else {
                None
            },
            ..none
        },
        RobotEvent::RemovedFromBackpack => EventReaction {
            update_backpack: true,
            sound: if play_sounds {
                Some(SoundCue::RemovedFromBackpack)
            } else {
                None
            },
            ..none
        },
        RobotEvent::Terminated | RobotEvent::DayChanged | RobotEvent::TileContentUpdated => none,
    }
}

} // verus!
