//! Publishing a package to S3.
use vstd::prelude::*;

verus! {

/// One destination, with the settings of its bucket.
#[derive(Debug, PartialEq, Eq)]
pub struct S3Destination {
    pub bucket_name: Option<String>,
    pub bucket_region: Option<String>,
    pub bucket_prefix: Option<String>,
    pub cloudfront_distribution_id: Option<String>,
    pub sync_delete: Option<bool>,
    /// Prefix of the environment variables that hold the credentials; `S3` if there is none.
    pub credentials_env_prefix: Option<String>,
}

impl Default for S3Destination {
    fn default() -> (r: Self)
        ensures
            r.bucket_name is None,
            r.bucket_region is None,
            r.bucket_prefix is None,
            r.cloudfront_distribution_id is None,
            r.sync_delete is None,
            r.credentials_env_prefix is None,
    {
        S3Destination {
            bucket_name: None,
            bucket_region: None,
            bucket_prefix: None,
            cloudfront_distribution_id: None,
            sync_delete: None,
            credentials_env_prefix: None,
        }
    }
}

impl Clone for S3Destination {
    fn clone(&self) -> (r: Self)
        ensures
            r == *self,
    {
        S3Destination {
            bucket_name: self.bucket_name.clone(),
            bucket_region: self.bucket_region.clone(),
            bucket_prefix: self.bucket_prefix.clone(),
            cloudfront_distribution_id: self.cloudfront_distribution_id.clone(),
            sync_delete: self.sync_delete,
            credentials_env_prefix: self.credentials_env_prefix.clone(),
        }
    }
}

/// How a package is published to S3: to the destinations, by name, or to the one that the
/// bucket's own fields describe.
#[derive(Debug, PartialEq, Eq)]
pub struct PackageMetadataFslabsCiPublishS3 {
    pub publish: bool,
    pub build_command: String,
    pub output_dir: Option<String>,
    pub bucket_name: Option<String>,
    pub bucket_region: Option<String>,
    pub bucket_prefix: Option<String>,
    pub cloudfront_distribution_id: Option<String>,
    pub sync_delete: Option<bool>,
    /// The destinations, each under a name of its own.
    pub destinations: Option<Vec<(String, S3Destination)>>,
    pub error: Option<String>,
}

impl Default for PackageMetadataFslabsCiPublishS3 {
    fn default() -> (r: Self)
        ensures
            !r.publish,
            r.build_command@ == Seq::<char>::empty(),
            r.output_dir is None,
            r.bucket_name is None,
            r.bucket_region is None,
            r.bucket_prefix is None,
            r.cloudfront_distribution_id is None,
            r.sync_delete is None,
            r.destinations is None,
            r.error is None,
    {
        PackageMetadataFslabsCiPublishS3 {
            publish: false,
            build_command: String::new(),
            output_dir: None,
            bucket_name: None,
            bucket_region: None,
            bucket_prefix: None,
            cloudfront_distribution_id: None,
            sync_delete: None,
            destinations: None,
            error: None,
        }
    }
}

/// No two destinations have the same name.
pub open spec fn names_differ(destinations: Seq<(String, S3Destination)>) -> bool {
    forall|i: int, j: int|
        0 <= i < j < destinations.len() ==> (#[trigger] destinations[i]).0@ != (
        #[trigger] destinations[j]).0@
}

impl PackageMetadataFslabsCiPublishS3 {
    /// The destinations have names of their own.
    pub open spec fn well_formed(self) -> bool {
        self.destinations matches Some(list) ==> names_differ(list@)
    }

    /// The destination that the bucket's own fields describe.
    pub open spec fn own_destination(self) -> S3Destination {
        S3Destination {
            bucket_name: self.bucket_name,
            bucket_region: self.bucket_region,
            bucket_prefix: self.bucket_prefix,
            cloudfront_distribution_id: self.cloudfront_distribution_id,
            sync_delete: self.sync_delete,
            credentials_env_prefix: None,
        }
    }

    /// There is enough to publish with: a build command, and without destinations the bucket's
    /// name and region.
    pub open spec fn publishable(self) -> bool {
        &&& self.build_command@.len() > 0
        &&& self.destinations is None ==> self.bucket_name is Some && self.bucket_region is Some
    }

    /// The package after a check: the wish to publish is taken back where there is not enough
    /// to publish with.
    pub open spec fn checked(self) -> Self {
        PackageMetadataFslabsCiPublishS3 { publish: self.publish && self.publishable(), ..self }
    }

    /// The destinations to publish to, by name.
    pub open spec fn resolved(self) -> Seq<(Seq<char>, S3Destination)> {
        match self.destinations {
            Some(list) => list@.map_values(|entry: (String, S3Destination)| (entry.0@, entry.1)),
            None => seq![("default"@, self.own_destination())],
        }
    }

    /// The destinations to publish to: those that are named, or one, called `default`, made of
    /// the bucket's own fields.
    pub fn resolved_destinations(&self) -> (r: Vec<(String, S3Destination)>)
        ensures
            match self.destinations {
                Some(list) => r@ == list@,
                None => r@.len() == 1 && r@[0].0@ == "default"@ && r@[0].1
                    == self.own_destination(),
            },
            self.well_formed() ==> names_differ(r@),
            r@.map_values(|entry: (String, S3Destination)| (entry.0@, entry.1)) == self.resolved(),
    {
        let mut resolved: Vec<(String, S3Destination)> = Vec::new();
        if let Some(list) = &self.destinations {
            let mut i: usize = 0;
            assert(resolved@ =~= list@.take(0));
            while i < list.len()
                invariant
                    i <= list.len(),
                    resolved@ == list@.take(i as int),
                decreases list.len() - i,
            {
                resolved.push((list[i].0.clone(), list[i].1.clone()));
                assert(list@.take(i + 1) =~= list@.take(i as int).push(list@[i as int]));
                i += 1;
            }
            assert(list@.take(i as int) =~= list@);
        } else {
            let own = S3Destination {
                bucket_name: self.bucket_name.clone(),
                bucket_region: self.bucket_region.clone(),
                bucket_prefix: self.bucket_prefix.clone(),
                cloudfront_distribution_id: self.cloudfront_distribution_id.clone(),
                sync_delete: self.sync_delete,
                credentials_env_prefix: None,
            };
            resolved.push(("default".to_owned(), own));
        }
        resolved
    }

    /// Takes back the wish to publish where there is not enough to publish with. Nothing else
    /// changes, and nothing is reported.
    pub fn check(&mut self)
        ensures
            *final(self) == old(self).checked(),
    {
        if !self.publish {
            return ;
        }
        let has_command = self.build_command.as_str().unicode_len() > 0;
        if self.destinations.is_none() {
            self.publish = has_command && self.bucket_name.is_some()
                && self.bucket_region.is_some();
        } else {
            self.publish = has_command;
        }
    }
}

/// A second check changes nothing.
pub proof fn check_is_idempotent(package: PackageMetadataFslabsCiPublishS3)
    ensures
        package.checked().checked() == package.checked(),
{
}

/// A package that is still to be published after a check was to be published before, and goes
/// to the same destinations.
pub proof fn check_only_takes_back(package: PackageMetadataFslabsCiPublishS3)
    ensures
        package.checked().publish ==> package.publish,
        package.checked().destinations == package.destinations,
        package.checked().own_destination() == package.own_destination(),
{
}

/// A package is published after a check exactly if that was wished and there is a build command
/// and, where no destinations are named, a bucket name and a region; nothing else of it changes.
pub proof fn check_asks_for_command_and_bucket(package: PackageMetadataFslabsCiPublishS3)
    ensures
        package.checked().publish <==> {
            &&& package.publish
            &&& package.build_command@.len() > 0
            &&& package.destinations is Some || (package.bucket_name is Some
                && package.bucket_region is Some)
        },
        package.checked().build_command == package.build_command,
        package.checked().output_dir == package.output_dir,
        package.checked().bucket_name == package.bucket_name,
        package.checked().bucket_region == package.bucket_region,
        package.checked().bucket_prefix == package.bucket_prefix,
        package.checked().cloudfront_distribution_id == package.cloudfront_distribution_id,
        package.checked().sync_delete == package.sync_delete,
        package.checked().destinations == package.destinations,
        package.checked().error == package.error,
{
}

/// The destination made of the bucket's own fields has each of them, and the usual credentials.
pub proof fn own_destination_has_the_own_fields(package: PackageMetadataFslabsCiPublishS3)
    ensures
        package.own_destination().bucket_name == package.bucket_name,
        package.own_destination().bucket_region == package.bucket_region,
        package.own_destination().bucket_prefix == package.bucket_prefix,
        package.own_destination().cloudfront_distribution_id
            == package.cloudfront_distribution_id,
        package.own_destination().sync_delete == package.sync_delete,
        package.own_destination().credentials_env_prefix is None,
{
}

/// Every destination that is named is published to, under its name and as it is described, in
/// order, whatever the bucket's own fields say; without any, the bucket is the only one.
pub proof fn named_destinations_come_first(package: PackageMetadataFslabsCiPublishS3, i: int)
    ensures
        package.destinations matches Some(list) ==> {
            &&& package.resolved().len() == list@.len()
            &&& 0 <= i < list@.len() ==> package.resolved()[i].0 == list@[i].0@
            &&& 0 <= i < list@.len() ==> package.resolved()[i].1 == list@[i].1
        },
        package.destinations is None ==> {
            &&& package.resolved().len() == 1
            &&& package.resolved()[0].0 == "default"@
            &&& package.resolved()[0].1.bucket_name == package.bucket_name
            &&& package.resolved()[0].1.bucket_region == package.bucket_region
            &&& package.resolved()[0].1.bucket_prefix == package.bucket_prefix
            &&& package.resolved()[0].1.cloudfront_distribution_id
                == package.cloudfront_distribution_id
            &&& package.resolved()[0].1.sync_delete == package.sync_delete
            &&& package.resolved()[0].1.credentials_env_prefix is None
        },
{
}

} // verus!
