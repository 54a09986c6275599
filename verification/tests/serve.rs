use repo_archive::serve::{ServeParams, DEFAULT_PORT};

#[test]
fn the_parameters_of_a_plain_service() {
    let params = ServeParams::new("/srv/archive.csv");
    assert_eq!(
        params,
        ServeParams {
            address: "127.0.0.1".to_string(),
            port: 8081,
            git_repo_archive: "/srv/archive.csv".to_string(),
            huggingface_archive: None,
            watch: false,
        }
    );
    assert_eq!(DEFAULT_PORT, 8081);
}
