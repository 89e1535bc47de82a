use fslabscli::commands::check_workspace::s3::{PackageMetadataFslabsCiPublishS3, S3Destination};

fn wishing() -> PackageMetadataFslabsCiPublishS3 {
    PackageMetadataFslabsCiPublishS3 {
        publish: true,
        build_command: "make dist".to_string(),
        bucket_name: Some("bucket".to_string()),
        bucket_region: Some("eu-west-1".to_string()),
        ..PackageMetadataFslabsCiPublishS3::default()
    }
}

#[test]
fn own_fields_make_the_default_destination() {
    let mut package = wishing();
    package.bucket_prefix = Some("app/".to_string());
    package.cloudfront_distribution_id = Some("E1".to_string());
    package.sync_delete = Some(true);
    let resolved = package.resolved_destinations();
    assert_eq!(
        resolved,
        vec![(
            "default".to_string(),
            S3Destination {
                bucket_name: Some("bucket".to_string()),
                bucket_region: Some("eu-west-1".to_string()),
                bucket_prefix: Some("app/".to_string()),
                cloudfront_distribution_id: Some("E1".to_string()),
                sync_delete: Some(true),
                credentials_env_prefix: None,
            }
        )]
    );
}

#[test]
fn named_destinations_win_over_own_fields() {
    let mut package = wishing();
    let named = vec![
        (
            "prod".to_string(),
            S3Destination {
                bucket_name: Some("p".to_string()),
                credentials_env_prefix: Some("PROD".to_string()),
                ..S3Destination::default()
            },
        ),
        ("staging".to_string(), S3Destination::default()),
    ];
    package.destinations = Some(named.clone());
    assert_eq!(package.resolved_destinations(), named);
    package.destinations = Some(vec![]);
    assert_eq!(package.resolved_destinations(), vec![]);
}

#[test]
fn check_keeps_a_complete_wish() {
    let mut package = wishing();
    package.check();
    assert_eq!(package, wishing());
}

#[test]
fn check_takes_back_an_incomplete_wish() {
    let mut package = wishing();
    package.bucket_region = None;
    package.check();
    assert!(!package.publish);
    assert_eq!(package.bucket_name, Some("bucket".to_string()));

    let mut package = wishing();
    package.bucket_name = None;
    package.check();
    assert!(!package.publish);

    let mut package = wishing();
    package.build_command = String::new();
    package.check();
    assert!(!package.publish);
}

#[test]
fn named_destinations_need_only_a_command() {
    let mut package = PackageMetadataFslabsCiPublishS3 {
        publish: true,
        build_command: "make".to_string(),
        destinations: Some(vec![]),
        ..PackageMetadataFslabsCiPublishS3::default()
    };
    package.check();
    assert!(package.publish);
    package.build_command = String::new();
    package.check();
    assert!(!package.publish);
}

#[test]
fn check_never_adds_a_wish() {
    let mut package = wishing();
    package.publish = false;
    package.check();
    assert!(!package.publish);
    package.check();
    assert!(!package.publish);
}
