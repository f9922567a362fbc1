//! The application core: its state, the events it reacts to, the effects it
//! asks its shell to perform, and the update function that takes each event
//! to the next state and its effects.
//!
//! The update function is pure decision logic: it never performs input or
//! output itself. The shell performs each returned effect — watching the
//! device position, persisting, rendering — and feeds the outcomes back in
//! as events.

use crate::capabilities::{GeoError, GeoOperation, GeoOptions};
use crate::earth::Coord;
use crate::pos::{GeoInfo, SavedPos};
use crate::registry::{has_name, is_saved, Registry};
use crate::way::{node_of, upserted, RecordedWay};
use vstd::prelude::*;

verus! {

/// A message for the user.
#[derive(Clone, PartialEq, Debug)]
pub enum Msg {
    /// A position with this name already exists.
    DuplicateName(String),
    /// This position has been removed.
    PosRemoved(String),
    /// No position with this name exists.
    PosNotFound(String),
    /// The current position is not known.
    CurrPosUnknown,
    /// A recorded way with this name already exists.
    WayNameInUse(String),
    /// There are no recorded positions to save.
    NoPositionsRecorded,
    /// This recorded way has been removed.
    WayRemoved(String),
    /// No recorded way with this name exists.
    WayNotFound(String),
    /// Free text, handed in by the shell.
    Text(String),
}

/// What the shell is asked to do after an update.
#[derive(Clone, PartialEq, Debug)]
pub enum Effect {
    /// Show the current view to the user.
    Render,
    /// Start or stop watching the device position.
    Geolocation(GeoOperation),
    /// Persist the saved positions.
    StoreSavedPositions,
    /// Persist the recorded ways.
    StoreRecordedWays,
    /// Load the saved positions from persistent storage.
    LoadSavedPositions,
    /// Load the recorded ways from persistent storage.
    LoadRecordedWays,
    /// Ask for the current time.
    RequestTimeNow,
    /// Ask to be notified after the update interval.
    NotifyAfterInterval,
    /// Offer all data to the user as a download.
    Download,
}

/// An event from the shell: a user interaction or some information the
/// application asked for.
#[derive(PartialEq, Debug)]
pub enum Event {
    /// Start geolocation services.
    StartGeolocation,
    /// Got a position update.
    GeolocationUpdate(Result<GeoInfo, GeoError>),
    /// Stop geolocation services.
    StopGeolocation,
    /// Load persistent data.
    LoadPersistantData,
    /// Download the data.
    DownloadData,
    /// Save the current position with a name.
    SaveCurrPos(String),
    /// Delete a saved position by its name.
    DelSavedPos(String),
    /// View the n nearest saved positions. To hide all, set this to 0.
    ViewNSavedPositions(usize),
    /// Save the way since the app started.
    SaveAllPositions(String),
    /// Delete a recorded way.
    DelRecordedWay(String),
    /// View n recorded ways.
    ViewNRecordedWays(usize),
    /// Ask that the current time be refreshed.
    UpdateCurrTime,
    /// Set the current time, in milliseconds since the Unix epoch.
    SetCurrTime(i64),
    /// A message which should be displayed to the user.
    Msg(String),
    /// Nothing to do.
    Noop,
}

/// The name under which a recorded way is stored, with the way.
pub struct NamedWay {
    pub name: String,
    pub way: RecordedWay,
}

/// No two stored ways share a name.
pub open spec fn way_names_unique(s: Seq<NamedWay>) -> bool {
    forall|i: int, j: int| 0 <= i < j < s.len() ==> s[i].name@ != s[j].name@
}

/// Some stored way carries the name `n`.
pub open spec fn ways_have_name(s: Seq<NamedWay>, n: Seq<char>) -> bool {
    exists|i: int| 0 <= i < s.len() && s[i].name@ == n
}

/// Saved recorded ways, keyed by their unique names.
pub struct WayStore {
    items: Vec<NamedWay>,
}

impl View for WayStore {
    type V = Seq<NamedWay>;

    closed spec fn view(&self) -> Seq<NamedWay> {
        self.items@
    }
}

impl WayStore {
    /// Names are unique and every stored way is well formed.
    pub closed spec fn wf(&self) -> bool {
        &&& way_names_unique(self.items@)
        &&& forall|i: int| 0 <= i < self.items@.len() ==> (#[trigger] self.items@[i]).way.wf()
    }

    /// An empty store.
    pub fn new() -> (r: WayStore)
        ensures
            r@ == Seq::<NamedWay>::empty(),
            r.wf(),
    {
        WayStore { items: Vec::new() }
    }

    /// How many ways are stored.
    pub fn len(&self) -> (r: usize)
        ensures
            r == self@.len(),
    {
        self.items.len()
    }

    /// The way stored under the given index, for read-only walks.
    pub fn get(&self, i: usize) -> (r: &NamedWay)
        requires
            i < self@.len(),
        ensures
            *r == self@[i as int],
    {
        &self.items[i]
    }

    /// Where the given name is stored, if anywhere.
    fn find_by_name(&self, name: &String) -> (r: Option<usize>)
        ensures
            match r {
                Some(i) => i < self@.len() && self@[i as int].name@ == name@,
                None => !ways_have_name(self@, name@),
            },
    {
        let mut k: usize = 0;
        while k < self.items.len()
            invariant
                0 <= k <= self@.len(),
                forall|j: int| 0 <= j < k ==> self@[j].name@ != name@,
            decreases self@.len() - k,
        {
            if self.items[k].name == *name {
                return Some(k);
            }
            k = k + 1;
        }
        None
    }

    /// Whether a way with this name is stored.
    pub fn contains_name(&self, name: &String) -> (r: bool)
        ensures
            r == ways_have_name(self@, name@),
    {
        self.find_by_name(name).is_some()
    }

    /// Store a way. Fails, changing nothing, when the name is already used.
    pub fn insert(&mut self, name: String, way: RecordedWay) -> (r: bool)
        requires
            old(self).wf(),
            way.wf(),
        ensures
            final(self).wf(),
            if ways_have_name(old(self)@, name@) {
                r == false && final(self)@ == old(self)@
            } else {
                r == true && final(self)@.len() == old(self)@.len() + 1 && final(self)@ == old(self)@.push(final(self)@.last()) && final(self)@.last().name@ == name@ && final(self)@.last().way.way@ == way.way@
            },
    {
        if self.contains_name(&name) {
            return false;
        }
        self.items.push(NamedWay { name, way });
        true
    }

    /// Remove the way stored under the given name. Fails, changing nothing,
    /// when no way has the name.
    pub fn remove(&mut self, name: &String) -> (r: bool)
        requires
            old(self).wf(),
        ensures
            final(self).wf(),
            if ways_have_name(old(self)@, name@) {
                r == true && exists|i: int|
                    0 <= i < old(self)@.len() && old(self)@[i].name@ == name@ && final(self)@
                        == old(self)@.remove(i)
            } else {
                r == false && final(self)@ == old(self)@
            },
    {
        let found = self.find_by_name(name);
        match found {
            None => false,
            Some(i) => {
                let _ = self.items.remove(i);
                true
            },
        }
    }
}

/// The options the application watches device positions with.
pub fn geolocation_options() -> (r: GeoOptions)
    ensures
        r == (GeoOptions { maximum_age: 0u64, timeout: Some(27000u64), enable_high_accuracy: true }),
{
    GeoOptions { maximum_age: 0, timeout: Some(27000), enable_high_accuracy: true }
}

/// The state of the application.
pub struct Model {
    /// The most recently received position, or the most recent acquisition
    /// error; the error is kept so status displays can show it.
    pub curr_pos: Option<Result<GeoInfo, GeoError>>,
    /// All saved positions, indexed by name and by place.
    pub saved_positions: Registry,
    /// The number of saved positions the UI at most wants to show.
    pub view_n_saved_positions: usize,
    /// Saved positions to view. Every entry exists in `saved_positions`.
    pub view_saved_positions: Vec<SavedPos>,
    /// All positions since the app was started.
    pub all_positions: Option<RecordedWay>,
    /// Saved ways and their names.
    pub recorded_ways: WayStore,
    /// The number of recorded ways the UI at most wants to show.
    pub view_n_recorded_ways: usize,
    /// A message that should be shown to the user.
    pub msg: Option<Msg>,
    /// The current time in milliseconds since the Unix epoch, refreshed
    /// about once a second once geolocation has started.
    pub curr_time: Option<i64>,
}

impl Model {
    /// Every constituent structure is well formed.
    pub open spec fn wf(&self) -> bool {
        &&& self.saved_positions.wf()
        &&& match self.all_positions {
            Some(w) => w.wf(),
            None => true,
        }
        &&& self.recorded_ways.wf()
    }

    /// A fresh model: nothing received, nothing saved.
    pub fn new() -> (r: Model)
        ensures
            r.wf(),
            r.curr_pos is None,
            r.saved_positions@ == Seq::<SavedPos>::empty(),
            r.all_positions is None,
            r.recorded_ways@ == Seq::<NamedWay>::empty(),
            r.msg is None,
            r.curr_time is None,
            r.view_n_saved_positions == 0,
            r.view_n_recorded_ways == 0,
            r.view_saved_positions@ == Seq::<SavedPos>::empty(),
    {
        Model {
            curr_pos: None,
            saved_positions: Registry::new(),
            view_n_saved_positions: 0,
            view_saved_positions: Vec::new(),
            all_positions: None,
            recorded_ways: WayStore::new(),
            view_n_recorded_ways: 0,
            msg: None,
            curr_time: None,
        }
    }

    /// The current coordinates, when a good position is known.
    pub fn curr_coords(&self) -> (r: Option<Coord>)
        ensures
            r == self.spec_curr_coords(),
    {
        match &self.curr_pos {
            Some(Ok(geo)) => Some(geo.coords),
            _ => None,
        }
    }

    /// The current coordinates, as seen by contracts.
    pub open spec fn spec_curr_coords(&self) -> Option<Coord> {
        match self.curr_pos {
            Some(Ok(geo)) => Some(geo.coords),
            _ => None,
        }
    }

    /// Recompute which saved positions to view: the nearest ones when the
    /// current position is known.
    fn refresh_view_saved_positions(&mut self)
        requires
            old(self).wf(),
        ensures
            final(self).wf(),
            *final(self) == (Model { view_saved_positions: final(self).view_saved_positions, ..*old(self) }),
            final(self).view_saved_positions@.len() == vstd::math::min(
                old(self).view_n_saved_positions as int,
                old(self).saved_positions@.len() as int,
            ),
            forall|k: int|
                0 <= k < final(self).view_saved_positions@.len() ==> is_saved(
                    old(self).saved_positions@,
                    #[trigger] final(self).view_saved_positions@[k],
                ),
    {
        let coords = self.curr_coords();
        self.view_saved_positions = self.saved_positions.nearest(
            coords,
            self.view_n_saved_positions,
        );
    }
}

/// The application: its update function takes one event at a time to the
/// next state.
pub struct GeoApp;

impl GeoApp {
    /// React to one event: change the model and say what the shell should
    /// do. The clauses below spell out, case by case, which part of the
    /// state changes and which effects come back; every other part of the
    /// state stays as it was.
    pub fn update(&self, event: Event, model: &mut Model) -> (effects: Vec<Effect>)
        requires
            old(model).wf(),
        ensures
            final(model).wf(),
            effects@.len() > 0 && effects@.last() == Effect::Render,
            match event {
                Event::StartGeolocation => *final(model) == *old(model) && effects@ =~= seq![
                    Effect::Geolocation(GeoOperation::WatchPosition(GeoOptions { maximum_age: 0u64, timeout: Some(27000u64), enable_high_accuracy: true })),
                    Effect::RequestTimeNow,
                    Effect::NotifyAfterInterval,
                    Effect::Render,
                ],
                Event::StopGeolocation => *final(model) == *old(model) && effects@ =~= seq![
                    Effect::Geolocation(GeoOperation::ClearWatch),
                    Effect::Render,
                ],
                Event::GeolocationUpdate(res) => {
                    &&& *final(model) == (Model {
                        curr_pos: final(model).curr_pos,
                        all_positions: final(model).all_positions,
                        ..*old(model)
                    })
                    &&& final(model).curr_pos == Some(res)
                    &&& match res {
                        Ok(geo) => final(model).all_positions matches Some(w) && w.way@
                            == upserted(
                            match old(model).all_positions {
                                Some(ow) => ow.way@,
                                None => Seq::empty(),
                            },
                            node_of(geo),
                        ),
                        Err(_) => final(model).all_positions == old(model).all_positions,
                    }
                    &&& effects@ =~= seq![Effect::Render]
                },
                Event::LoadPersistantData => *final(model) == *old(model) && effects@ =~= seq![
                    Effect::LoadSavedPositions,
                    Effect::LoadRecordedWays,
                    Effect::Render,
                ],
                Event::DownloadData => *final(model) == *old(model) && effects@ =~= seq![
                    Effect::Download,
                    Effect::Render,
                ],
                Event::SaveCurrPos(name) => {
                    if has_name(old(model).saved_positions@, name@) {
                        &&& *final(model) == (Model { msg: Some(Msg::DuplicateName(name)), ..*old(model) })
                        &&& effects@ =~= seq![Effect::Render]
                    } else {
                        match old(model).curr_pos {
                            Some(Ok(geo)) => {
                                &&& *final(model) == (Model {
                                    saved_positions: final(model).saved_positions,
                                    view_saved_positions: final(model).view_saved_positions,
                                    ..*old(model)
                                })
                                &&& final(model).saved_positions@.len() == old(model).saved_positions@.len() + 1
                                &&& final(model).saved_positions@ == old(model).saved_positions@.push(final(model).saved_positions@.last())
                                &&& final(model).saved_positions@.last().name@ == name@
                                &&& final(model).saved_positions@.last().pos.coords == geo.coords
                                &&& final(model).saved_positions@.last().pos.altitude == geo.altitude
                                &&& final(model).saved_positions@.last().pos.accuracy == geo.accuracy
                                &&& final(model).saved_positions@.last().pos.altitude_accuracy == geo.altitude_accuracy
                                &&& final(model).saved_positions@.last().timestamp == geo.timestamp
                                &&& final(model).view_saved_positions@.len() == vstd::math::min(
                                    old(model).view_n_saved_positions as int,
                                    final(model).saved_positions@.len() as int,
                                )
                                &&& forall|k: int|
                                    0 <= k < final(model).view_saved_positions@.len() ==> is_saved(
                                        final(model).saved_positions@,
                                        #[trigger] final(model).view_saved_positions@[k],
                                    )
                                &&& effects@ =~= seq![Effect::StoreSavedPositions, Effect::Render]
                            },
                            _ => {
                                &&& *final(model) == (Model { msg: Some(Msg::CurrPosUnknown), ..*old(model) })
                                &&& effects@ =~= seq![Effect::Render]
                            },
                        }
                    }
                },
                Event::DelSavedPos(name) => {
                    if has_name(old(model).saved_positions@, name@) {
                        &&& *final(model) == (Model {
                            saved_positions: final(model).saved_positions,
                            view_saved_positions: final(model).view_saved_positions,
                            msg: final(model).msg,
                            ..*old(model)
                        })
                        &&& exists|i: int|
                            0 <= i < old(model).saved_positions@.len() && old(model).saved_positions@[i].name@ == name@ && final(model).saved_positions@
                                == old(model).saved_positions@.remove(i)
                        &&& final(model).msg == Some(Msg::PosRemoved(name))
                        &&& final(model).view_saved_positions@.len() == vstd::math::min(
                            old(model).view_n_saved_positions as int,
                            final(model).saved_positions@.len() as int,
                        )
                        &&& forall|k: int|
                            0 <= k < final(model).view_saved_positions@.len() ==> is_saved(
                                final(model).saved_positions@,
                                #[trigger] final(model).view_saved_positions@[k],
                            )
                        &&& effects@ =~= seq![Effect::StoreSavedPositions, Effect::Render]
                    } else {
                        &&& *final(model) == (Model {
                            saved_positions: final(model).saved_positions,
                            msg: Some(Msg::PosNotFound(name)),
                            ..*old(model)
                        })
                        &&& final(model).saved_positions@ == old(model).saved_positions@
                        &&& effects@ =~= seq![Effect::Render]
                    }
                },
                Event::ViewNSavedPositions(n) => {
                    &&& *final(model) == (Model {
                        view_n_saved_positions: n,
                        view_saved_positions: final(model).view_saved_positions,
                        ..*old(model)
                    })
                    &&& final(model).view_saved_positions@.len() == vstd::math::min(
                        n as int,
                        old(model).saved_positions@.len() as int,
                    )
                    &&& forall|k: int|
                        0 <= k < final(model).view_saved_positions@.len() ==> is_saved(
                            old(model).saved_positions@,
                            #[trigger] final(model).view_saved_positions@[k],
                        )
                    &&& effects@ =~= seq![Effect::Render]
                },
                Event::SaveAllPositions(name) => {
                    match old(model).all_positions {
                        None => {
                            &&& *final(model) == (Model { msg: final(model).msg, ..*old(model) })
                            &&& final(model).msg == Some(Msg::NoPositionsRecorded)
                            &&& effects@ =~= seq![Effect::Render]
                        },
                        Some(rec) => {
                            if ways_have_name(old(model).recorded_ways@, name@) {
                                &&& *final(model) == (Model {
                                    recorded_ways: final(model).recorded_ways,
                                    msg: Some(Msg::WayNameInUse(name)),
                                    ..*old(model)
                                })
                                &&& final(model).recorded_ways@ == old(model).recorded_ways@
                                &&& effects@ =~= seq![Effect::Render]
                            } else {
                                &&& *final(model) == (Model {
                                    recorded_ways: final(model).recorded_ways,
                                    ..*old(model)
                                })
                                &&& final(model).recorded_ways@.len() == old(model).recorded_ways@.len() + 1
                                &&& final(model).recorded_ways@ == old(model).recorded_ways@.push(final(model).recorded_ways@.last())
                                &&& final(model).recorded_ways@.last().name@ == name@
                                &&& final(model).recorded_ways@.last().way.way@ == rec.way@
                                &&& effects@ =~= seq![Effect::StoreRecordedWays, Effect::Render]
                            }
                        },
                    }
                },
                Event::DelRecordedWay(name) => {
                    if ways_have_name(old(model).recorded_ways@, name@) {
                        &&& *final(model) == (Model {
                            recorded_ways: final(model).recorded_ways,
                            msg: final(model).msg,
                            ..*old(model)
                        })
                        &&& exists|i: int|
                            0 <= i < old(model).recorded_ways@.len() && old(model).recorded_ways@[i].name@ == name@ && final(model).recorded_ways@
                                == old(model).recorded_ways@.remove(i)
                        &&& final(model).msg == Some(Msg::WayRemoved(name))
                        &&& effects@ =~= seq![Effect::StoreRecordedWays, Effect::Render]
                    } else {
                        &&& *final(model) == (Model {
                            recorded_ways: final(model).recorded_ways,
                            msg: Some(Msg::WayNotFound(name)),
                            ..*old(model)
                        })
                        &&& final(model).recorded_ways@ == old(model).recorded_ways@
                        &&& effects@ =~= seq![Effect::Render]
                    }
                },
                Event::ViewNRecordedWays(n) => {
                    &&& *final(model) == (Model { view_n_recorded_ways: n, ..*old(model) })
                    &&& effects@ =~= seq![Effect::Render]
                },
                Event::UpdateCurrTime => *final(model) == *old(model) && effects@ =~= seq![
                    Effect::RequestTimeNow,
                    Effect::NotifyAfterInterval,
                    Effect::Render,
                ],
                Event::SetCurrTime(t) => {
                    &&& *final(model) == (Model { curr_time: Some(t), ..*old(model) })
                    &&& effects@ =~= seq![Effect::Render]
                },
                Event::Msg(text) => {
                    &&& *final(model) == (Model { msg: final(model).msg, ..*old(model) })
                    &&& final(model).msg == Some(Msg::Text(text))
                    &&& effects@ =~= seq![Effect::Render]
                },
                Event::Noop => *final(model) == *old(model) && effects@ =~= seq![Effect::Render],
            },
    {
        let mut effects: Vec<Effect> = Vec::new();
        match event {
            Event::StartGeolocation => {
                effects.push(Effect::Geolocation(GeoOperation::WatchPosition(
                    geolocation_options(),
                )));
                effects.push(Effect::RequestTimeNow);
                effects.push(Effect::NotifyAfterInterval);
            },
            Event::StopGeolocation => {
                effects.push(Effect::Geolocation(GeoOperation::ClearWatch));
            },
            Event::GeolocationUpdate(res) => {
                model.curr_pos = Some(res);
                if let Ok(geo) = res {
                    let taken = self.take_all_positions(model);
                    let mut rec = match taken {
                        Some(r) => r,
                        None => RecordedWay::new(),
                    };
                    rec.add(&geo);
                    model.all_positions = Some(rec);
                }
            },
            Event::LoadPersistantData => {
                effects.push(Effect::LoadSavedPositions);
                effects.push(Effect::LoadRecordedWays);
            },
            Event::DownloadData => {
                effects.push(Effect::Download);
            },
            Event::SaveCurrPos(name) => {
                if self.model_has_pos_name(model, &name) {
                    model.msg = Some(Msg::DuplicateName(name));
                } else {
                    match model.curr_pos {
                        Some(Ok(geo)) => {
                            let pos = SavedPos::new(name, &geo);
                            let saved = model.saved_positions.save(pos);
                            proof {
                                assert(saved is Ok);
                            }
                            model.refresh_view_saved_positions();
                            effects.push(Effect::StoreSavedPositions);
                        },
                        _ => {
                            model.msg = Some(Msg::CurrPosUnknown);
                        },
                    }
                }
            },
            Event::DelSavedPos(name) => {
                let deleted = model.saved_positions.delete(&name);
                match deleted {
                    Ok(_) => {
                        model.refresh_view_saved_positions();
                        model.msg = Some(Msg::PosRemoved(name));
                        effects.push(Effect::StoreSavedPositions);
                    },
                    Err(_) => {
                        model.msg = Some(Msg::PosNotFound(name));
                    },
                }
            },
            Event::ViewNSavedPositions(n) => {
                model.view_n_saved_positions = n;
                model.refresh_view_saved_positions();
            },
            Event::SaveAllPositions(name) => {
                let taken = self.take_all_positions(model);
                match taken {
                    None => {
                        model.msg = Some(Msg::NoPositionsRecorded);
                    },
                    Some(rec) => {
                        let copy = rec.duplicate();
                        model.all_positions = Some(rec);
                        let inserted = model.recorded_ways.insert(name.clone(), copy);
                        if inserted {
                            effects.push(Effect::StoreRecordedWays);
                        } else {
                            model.msg = Some(Msg::WayNameInUse(name));
                        }
                    },
                }
            },
            Event::DelRecordedWay(name) => {
                let removed = model.recorded_ways.remove(&name);
                if removed {
                    model.msg = Some(Msg::WayRemoved(name));
                    effects.push(Effect::StoreRecordedWays);
                } else {
                    model.msg = Some(Msg::WayNotFound(name));
                }
            },
            Event::ViewNRecordedWays(n) => {
                model.view_n_recorded_ways = n;
            },
            Event::UpdateCurrTime => {
                effects.push(Effect::RequestTimeNow);
                effects.push(Effect::NotifyAfterInterval);
            },
            Event::SetCurrTime(t) => {
                model.curr_time = Some(t);
            },
            Event::Msg(text) => {
                model.msg = Some(Msg::Text(text));
            },
            Event::Noop => {},
        }
        effects.push(Effect::Render);
        effects
    }

    /// Whether a saved position carries this name.
    fn model_has_pos_name(&self, model: &Model, name: &String) -> (r: bool)
        ensures
            r == has_name(model.saved_positions@, name@),
    {
        model.saved_positions.contains_name(name)
    }

    /// Take the running recording out of the model, leaving nothing there.
    fn take_all_positions(&self, model: &mut Model) -> (r: Option<RecordedWay>)
        requires
            old(model).wf(),
        ensures
            *final(model) == (Model { all_positions: None, ..*old(model) }),
            r == old(model).all_positions,
            final(model).wf(),
            r matches Some(w) ==> w.wf(),
    {
        model.all_positions.take()
    }
}

} // verus!
