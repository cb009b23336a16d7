use dcl2d::deploy::{deploy_input, deploy_outcome, deploy_pointers, handle_deploy_step, parcel_from_pointer, parcel_pointer,
    DeployAction, DeployState};
use dcl2d::parcel::Parcel;
use dcl2d::scene_downloads::{find_first_with_suffix, parcels_of_pointers, select_scene_downloads};
use dcl2d::where_command::{parcels_to_string, where_parcels};

#[test]
fn no_parcel_prints_nothing() {
    assert_eq!(parcels_to_string(&Vec::new()), "");
}

#[test]
fn one_parcel_prints_as_a_pair() {
    assert_eq!(parcels_to_string(&vec![Parcel(1, -2)]), "(1, -2)");
}

#[test]
fn several_parcels_print_as_a_list() {
    assert_eq!(parcels_to_string(&vec![Parcel(1, 2), Parcel(-3, 4)]), "[ (1, 2), (-3, 4) ]");
    assert_eq!(
        parcels_to_string(&vec![Parcel(0, 0), Parcel(0, 1), Parcel(-150, 150)]),
        "[ (0, 0), (0, 1), (-150, 150) ]"
    );
}

#[test]
fn searched_parcels_cover_the_square_column_by_column() {
    let parcels = where_parcels();
    assert_eq!(parcels.len(), 304 * 304);
    assert_eq!(parcels[0], Parcel(-152, -152));
    assert_eq!(parcels[1], Parcel(-152, -151));
    assert_eq!(parcels[304], Parcel(-151, -152));
    assert_eq!(parcels[304 * 304 - 1], Parcel(151, 151));
}

#[test]
fn deploy_pointers_are_x_comma_y() {
    assert_eq!(parcel_pointer(Parcel(-3, 12)), "-3,12");
    assert_eq!(deploy_pointers(&vec![Parcel(0, 0), Parcel(5, -6)]), vec!["0,0".to_string(), "5,-6".to_string()]);
}

#[test]
fn pointers_read_back_as_parcels() {
    assert_eq!(parcel_from_pointer("-3,12"), Some(dcl2d::parcel::Parcel(-3, 12)));
    assert_eq!(parcel_from_pointer(&parcel_pointer(Parcel(-32768, 32767))), Some(Parcel(-32768, 32767)));
    assert_eq!(parcel_from_pointer("3;12"), None);
    assert_eq!(parcel_from_pointer("1,2,3"), None);
    assert_eq!(parcel_from_pointer("1,"), None);
}

#[test]
fn scene_downloads_stop_once_both_files_are_found() {
    let names = |v: &[&str]| v.iter().map(|s| s.to_string()).collect::<Vec<String>>();
    assert_eq!(select_scene_downloads(&names(&["a.png", "scene.json", "x/scene.2dcl", "scene.json"])), (Some(1), Some(2)));
    assert_eq!(select_scene_downloads(&names(&["scene.2dcl", "b/scene.2dcl", "scene.json"])), (Some(2), Some(1)));
    assert_eq!(select_scene_downloads(&names(&["scene.json"])), (Some(0), None));
    assert_eq!(select_scene_downloads(&names(&[])), (None, None));
}

#[test]
fn first_scene_file_and_pointer_parcels() {
    let names = vec!["a.png".to_string(), "1/scene.2dcl".to_string(), "2/scene.2dcl".to_string()];
    assert_eq!(find_first_with_suffix(&names, "scene.2dcl"), Some(1));
    assert_eq!(find_first_with_suffix(&names, "scene.json"), None);
    let pointers = vec!["1,2".to_string(), "bad".to_string(), "-3,4".to_string()];
    assert_eq!(parcels_of_pointers(&pointers), vec![Parcel(1, 2), Parcel(-3, 4)]);
}

#[test]
fn deployment_steps_show_their_progress() {
    assert_eq!(deploy_input(true, true), Some(("Waiting for signature...".to_string(), DeployAction::Sign)));
    assert_eq!(deploy_input(true, false), None);
    assert_eq!(handle_deploy_step(&DeployState::Signed), ("Preparing files...".to_string(), DeployAction::PrepareFiles));
    assert_eq!(handle_deploy_step(&DeployState::FilesPrepared), ("Uploading files...".to_string(), DeployAction::Upload));
    assert_eq!(handle_deploy_step(&DeployState::Success), ("Scene deployed succesfully.".to_string(), DeployAction::Finish));
    assert_eq!(handle_deploy_step(&DeployState::Error("no".to_string())), ("no".to_string(), DeployAction::Finish));
    assert_eq!(deploy_outcome(200, "ok".to_string()), DeployState::Success);
    assert_eq!(deploy_outcome(500, "bad".to_string()), DeployState::Error("bad".to_string()));
}
