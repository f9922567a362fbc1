use geoway::capabilities::GeoError;
use geoway::earth::{distance_mm, Coord};
use geoway::model::{Effect, Event, GeoApp, Model, Msg};
use geoway::pos::{GeoInfo, SavedPos};
use geoway::registry::{Registry, RegistryError};

fn geo_at(lat_e7: i64, lon_e7: i64, t_ms: i64) -> GeoInfo {
    GeoInfo {
        timestamp: t_ms,
        coords: Coord::new(lat_e7, lon_e7),
        altitude: None,
        accuracy: Some(5_000),
        altitude_accuracy: None,
        bearing: None,
        volocity: None,
    }
}

/// Saving under a used name fails and changes nothing; deleting an unknown
/// name fails; deleting a known name removes exactly that position.
#[test]
fn registry_save_and_delete() {
    let mut reg = Registry::new();
    let a = SavedPos::new("home".to_string(), &geo_at(593_000_000, 181_000_000, 1_000));
    let b = SavedPos::new("work".to_string(), &geo_at(593_500_000, 180_000_000, 2_000));
    assert!(reg.save(a).is_ok());
    assert!(reg.save(b).is_ok());
    assert_eq!(reg.len(), 2);

    let again = SavedPos::new("home".to_string(), &geo_at(0, 0, 3_000));
    assert_eq!(reg.save(again), Err(RegistryError::DuplicateName));
    assert_eq!(reg.len(), 2);

    assert_eq!(reg.delete(&"nowhere".to_string()), Err(RegistryError::NameNotFound));
    assert_eq!(reg.len(), 2);

    let gone = reg.delete(&"home".to_string()).unwrap();
    assert_eq!(gone.name, "home");
    assert_eq!(gone.pos.coords.lat_e7, 593_000_000);
    assert_eq!(reg.len(), 1);
    assert!(!reg.contains_name(&"home".to_string()));
    assert!(reg.contains_name(&"work".to_string()));
}

/// Scenario: asking for the two nearest of five saved positions returns
/// exactly two, ordered by increasing great-circle distance from the
/// current coordinate.
#[test]
fn nearest_two_of_five() {
    let mut reg = Registry::new();
    let names = ["one", "two", "three", "four", "five"];
    let longs: [i64; 5] = [50_000_000, 20_000_000, 40_000_000, 10_000_000, 30_000_000];
    for (name, lon) in names.iter().zip(longs.iter()) {
        let p = SavedPos::new(name.to_string(), &geo_at(0, *lon, 0));
        assert!(reg.save(p).is_ok());
    }
    let here = Coord::new(0, 0);
    let two = reg.nearest(Some(here), 2);
    assert_eq!(two.len(), 2);
    assert_eq!(two[0].name, "four");
    assert_eq!(two[1].name, "two");
    assert!(
        distance_mm(here, two[0].pos.coords) <= distance_mm(here, two[1].pos.coords)
    );

    // Asking for more than exist returns all, still in distance order.
    let all = reg.nearest(Some(here), 10);
    assert_eq!(all.len(), 5);
    for i in 1..all.len() {
        assert!(
            distance_mm(here, all[i - 1].pos.coords) <= distance_mm(here, all[i].pos.coords)
        );
    }

    // With no reference coordinate, a deterministic selection of n.
    let some = reg.nearest(None, 3);
    assert_eq!(some.len(), 3);
    assert_eq!(reg.nearest(None, 0).len(), 0);
}

/// Scenario: save a position named "home", then try to save another
/// position under the same name: the second attempt fails with a
/// duplicate-name message and the registry is unchanged.
#[test]
fn save_current_position_duplicate_name() {
    let app = GeoApp;
    let mut model = Model::new();
    let effects = app.update(
        Event::GeolocationUpdate(Ok(geo_at(593_000_000, 181_000_000, 1_000))),
        &mut model,
    );
    assert_eq!(effects, vec![Effect::Render]);

    let effects = app.update(Event::SaveCurrPos("home".to_string()), &mut model);
    assert_eq!(effects, vec![Effect::StoreSavedPositions, Effect::Render]);
    assert_eq!(model.saved_positions.len(), 1);
    assert!(model.msg.is_none());

    // A later position arrives; saving under the same name must fail.
    let _ = app.update(
        Event::GeolocationUpdate(Ok(geo_at(600_000_000, 180_000_000, 2_000))),
        &mut model,
    );
    let effects = app.update(Event::SaveCurrPos("home".to_string()), &mut model);
    assert_eq!(effects, vec![Effect::Render]);
    assert_eq!(model.msg, Some(Msg::DuplicateName("home".to_string())));
    assert_eq!(model.saved_positions.len(), 1);
    let kept = model.saved_positions.nearest(None, 1);
    assert_eq!(kept[0].pos.coords.lat_e7, 593_000_000);
}

/// Saving with no known position is refused with its own message, distinct
/// from an acquisition error, which is kept as the current position.
#[test]
fn save_current_position_unknown() {
    let app = GeoApp;
    let mut model = Model::new();
    let effects = app.update(Event::SaveCurrPos("here".to_string()), &mut model);
    assert_eq!(effects, vec![Effect::Render]);
    assert_eq!(model.msg, Some(Msg::CurrPosUnknown));
    assert_eq!(model.saved_positions.len(), 0);

    // An upstream error is stored as the current position, and saving still
    // fails the same way.
    let _ = app.update(Event::GeolocationUpdate(Err(GeoError::Timeout)), &mut model);
    assert_eq!(model.curr_pos, Some(Err(GeoError::Timeout)));
    let _ = app.update(Event::SaveCurrPos("here".to_string()), &mut model);
    assert_eq!(model.msg, Some(Msg::CurrPosUnknown));
}

/// Deleting a saved position by name, and the message when the name is
/// unknown.
#[test]
fn delete_saved_position_events() {
    let app = GeoApp;
    let mut model = Model::new();
    let _ = app.update(
        Event::GeolocationUpdate(Ok(geo_at(10_000_000, 20_000_000, 1_000))),
        &mut model,
    );
    let _ = app.update(Event::SaveCurrPos("camp".to_string()), &mut model);
    assert_eq!(model.saved_positions.len(), 1);

    let effects = app.update(Event::DelSavedPos("camp".to_string()), &mut model);
    assert_eq!(effects, vec![Effect::StoreSavedPositions, Effect::Render]);
    assert_eq!(model.msg, Some(Msg::PosRemoved("camp".to_string())));
    assert_eq!(model.saved_positions.len(), 0);

    let effects = app.update(Event::DelSavedPos("camp".to_string()), &mut model);
    assert_eq!(effects, vec![Effect::Render]);
    assert_eq!(model.msg, Some(Msg::PosNotFound("camp".to_string())));
}

/// Recording runs through position updates; errors never stop it; saving
/// the recording under a name and deleting it again.
#[test]
fn record_save_and_delete_ways() {
    let app = GeoApp;
    let mut model = Model::new();
    assert!(model.all_positions.is_none());

    let effects = app.update(Event::SaveAllPositions("trip".to_string()), &mut model);
    assert_eq!(effects, vec![Effect::Render]);
    assert_eq!(model.msg, Some(Msg::NoPositionsRecorded));

    let _ = app.update(Event::GeolocationUpdate(Ok(geo_at(0, 0, 1_000))), &mut model);
    let _ = app.update(Event::GeolocationUpdate(Err(GeoError::PositionUnavailable)), &mut model);
    let _ = app.update(Event::GeolocationUpdate(Ok(geo_at(0, 1_000_000, 2_000))), &mut model);
    let rec = model.all_positions.as_ref().unwrap();
    assert_eq!(rec.way().nodes().len(), 2);

    let effects = app.update(Event::SaveAllPositions("trip".to_string()), &mut model);
    assert_eq!(effects, vec![Effect::StoreRecordedWays, Effect::Render]);
    assert_eq!(model.recorded_ways.len(), 1);
    assert_eq!(model.recorded_ways.get(0).name, "trip");
    assert_eq!(model.recorded_ways.get(0).way.way().nodes().len(), 2);

    let effects = app.update(Event::SaveAllPositions("trip".to_string()), &mut model);
    assert_eq!(effects, vec![Effect::Render]);
    assert_eq!(model.msg, Some(Msg::WayNameInUse("trip".to_string())));
    assert_eq!(model.recorded_ways.len(), 1);

    let effects = app.update(Event::DelRecordedWay("trip".to_string()), &mut model);
    assert_eq!(effects, vec![Effect::StoreRecordedWays, Effect::Render]);
    assert_eq!(model.msg, Some(Msg::WayRemoved("trip".to_string())));
    assert_eq!(model.recorded_ways.len(), 0);

    let effects = app.update(Event::DelRecordedWay("trip".to_string()), &mut model);
    assert_eq!(effects, vec![Effect::Render]);
    assert_eq!(model.msg, Some(Msg::WayNotFound("trip".to_string())));
}

/// The bookkeeping events: geolocation start and stop, time, view counts,
/// loading and downloading.
#[test]
fn update_effects() {
    let app = GeoApp;
    let mut model = Model::new();

    let effects = app.update(Event::StartGeolocation, &mut model);
    assert_eq!(effects.len(), 4);
    assert!(matches!(effects[0], Effect::Geolocation(_)));
    assert_eq!(effects[1], Effect::RequestTimeNow);
    assert_eq!(effects[2], Effect::NotifyAfterInterval);
    assert_eq!(effects[3], Effect::Render);

    let effects = app.update(Event::StopGeolocation, &mut model);
    assert_eq!(effects.len(), 2);

    let effects = app.update(Event::LoadPersistantData, &mut model);
    assert_eq!(
        effects,
        vec![Effect::LoadSavedPositions, Effect::LoadRecordedWays, Effect::Render],
    );

    let effects = app.update(Event::DownloadData, &mut model);
    assert_eq!(effects, vec![Effect::Download, Effect::Render]);

    let effects = app.update(Event::SetCurrTime(123_456), &mut model);
    assert_eq!(effects, vec![Effect::Render]);
    assert_eq!(model.curr_time, Some(123_456));

    let _ = app.update(Event::UpdateCurrTime, &mut model);
    let _ = app.update(Event::ViewNRecordedWays(7), &mut model);
    assert_eq!(model.view_n_recorded_ways, 7);
    let _ = app.update(Event::Msg("hello".to_string()), &mut model);
    assert_eq!(model.msg, Some(Msg::Text("hello".to_string())));
    let effects = app.update(Event::Noop, &mut model);
    assert_eq!(effects, vec![Effect::Render]);
}

/// The list of saved positions to view follows the current position and the
/// requested count.
#[test]
fn view_selection_follows_position() {
    let app = GeoApp;
    let mut model = Model::new();
    let _ = app.update(Event::GeolocationUpdate(Ok(geo_at(0, 0, 1_000))), &mut model);
    for (i, name) in ["a", "b", "c"].iter().enumerate() {
        let _ = app.update(
            Event::GeolocationUpdate(Ok(geo_at(0, (i as i64 + 1) * 10_000_000, (i as i64 + 2) * 1_000))),
            &mut model,
        );
        let _ = app.update(Event::SaveCurrPos(name.to_string()), &mut model);
    }
    assert_eq!(model.view_saved_positions.len(), 0);
    let _ = app.update(Event::ViewNSavedPositions(2), &mut model);
    assert_eq!(model.view_saved_positions.len(), 2);
    // The current position is at 30 degrees east, so "c" is nearest.
    assert_eq!(model.view_saved_positions[0].name, "c");
    assert_eq!(model.view_saved_positions[1].name, "b");
}
