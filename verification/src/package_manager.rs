//! The backend factory and the operations shared by every backend:
//! preparing the elevated commands, classifying their outcomes, and the
//! cached-changelog walk.

use vstd::prelude::*;
use vstd::string::*;
use vstd::utf8::*;

use crate::archive::{dir_read_of, lemma_read_dir_contributions, raw_dir_contributions,
    read_dir_tree, rpm_layout_ok, rpm_meta_of};
use crate::changelog::{get_dir_changelogs, joined_contributions, kept_plain_descriptions,
    query_matches, ChangelogQuery, RawDirEntry};
use crate::command::{interactive_result, kind_wraps, prepare_shell_command, process_cmd_output,
    CmdErrorKind, CmdOutput};
use crate::config::{PackageConfig, PackageManagerType};
use crate::dnf::{all_dnf_items, dnf_items, DnfManger};
use crate::error::Error;
use crate::zypper::{zypper_items_match, zypper_scan, ZypperManager};

verus! {

/// A package name together with the changelog texts that survived the
/// query and threshold filtering, in their original order.
pub struct PackageChangelogResult {
    pub name: String,
    pub changelogs: Vec<String>,
}

/// One pending update: the package's name, and the versions the backend
/// reported, as far as it reported them.
pub struct PackageUpdateItem {
    pub name: String,
    pub old_version: Option<String>,
    pub new_version: Option<String>,
}

/// How one pending update is shown to the user: the name, then the new
/// version in parentheses when it is known, then the old one.
pub open spec fn item_display(item: PackageUpdateItem) -> Seq<char> {
    item.name@ + match item.new_version {
        Option::None => Seq::<char>::empty(),
        Option::Some(nv) => " ("@ + nv@ + ")"@ + match item.old_version {
            Option::None => Seq::<char>::empty(),
            Option::Some(ov) => " -> ("@ + ov@ + ")"@,
        },
    }
}

impl PackageUpdateItem {
    /// The line printed for this update.
    pub fn display_string(&self) -> (r: String)
        ensures
            r@ == item_display(*self),
    {
        let mut out = self.name.clone();
        if let Option::Some(nv) = &self.new_version {
            out.append(" (");
            out.append(nv.as_str());
            out.append(")");
            if let Option::Some(ov) = &self.old_version {
                out.append(" -> (");
                out.append(ov.as_str());
                out.append(")");
            }
        }
        out
    }
}

/// A chosen backend: the tagged union over the package managers this
/// library integrates with.
pub enum PackageManager<'a> {
    Zypper(ZypperManager<'a>),
    Dnf(DnfManger<'a>),
}

/// Selects the backend the configuration names. Only the zypper and dnf
/// selectors are implemented; everything else — the other selectors and an
/// absent one — is rejected explicitly.
pub fn get_package_manager<'a>(config: &'a PackageConfig) -> (r: Result<PackageManager<'a>, Error>)
    ensures
        config.package_manager == Option::Some(PackageManagerType::Zypper) ==> (r matches Ok(m)
            && m matches PackageManager::Zypper(z) && z.config == config),
        config.package_manager == Option::Some(PackageManagerType::Dnf) ==> (r matches Ok(m)
            && m matches PackageManager::Dnf(d) && d.config == config),
        config.package_manager != Option::Some(PackageManagerType::Zypper)
            && config.package_manager != Option::Some(PackageManagerType::Dnf) ==> (r matches Err(
            e,
        ) && e matches Error::UnsupportedPackageManager),
{
    match config.package_manager {
        Option::Some(PackageManagerType::Zypper) => Result::Ok(
            PackageManager::Zypper(ZypperManager { config }),
        ),
        Option::Some(PackageManagerType::Dnf) => Result::Ok(
            PackageManager::Dnf(DnfManger { config }),
        ),
        _ => Result::Err(Error::UnsupportedPackageManager),
    }
}

impl<'a> PackageManager<'a> {
    /// The configuration the backend was built over.
    pub open spec fn spec_config(&self) -> &'a PackageConfig {
        match self {
            PackageManager::Zypper(z) => z.config,
            PackageManager::Dnf(d) => d.config,
        }
    }

    /// The configuration the backend was built over.
    pub fn get_config(&self) -> (r: &'a PackageConfig)
        ensures
            r == self.spec_config(),
    {
        match self {
            PackageManager::Zypper(z) => z.get_config(),
            PackageManager::Dnf(d) => d.get_config(),
        }
    }

    /// The command whose output the backend's update check reads.
    pub fn check_update_command(&self) -> (r: &'static str)
        ensures
            *self is Zypper ==> r@ == "zypper --xmlout lu"@,
            *self is Dnf ==> r@ == "dnf check-update"@,
    {
        match self {
            PackageManager::Zypper(_) => "zypper --xmlout lu",
            PackageManager::Dnf(_) => "dnf check-update",
        }
    }

    /// Reads the backend's pending updates out of the finished update-list
    /// command. The zypper backend surfaces a failed command and yields
    /// exactly the updates its XML output declares; the dnf backend reads
    /// any failure as "no updates", since dnf exits nonzero exactly when
    /// updates exist.
    pub fn check_update(&self, output: CmdOutput) -> (r: Result<Vec<PackageUpdateItem>, Error>)
        ensures
            *self is Dnf ==> r is Ok,
            *self is Dnf && output.success && valid_utf8(output.stdout@) ==> all_dnf_items(
                r->Ok_0@,
                dnf_items(decode_utf8(output.stdout@)),
            ),
            *self is Zypper && !output.success ==> r is Err,
            *self is Zypper && output.success && valid_utf8(output.stdout@) ==> ({
                let text = decode_utf8(output.stdout@);
                let scan = zypper_scan(text, 0, text.len() as nat);
                &&& (r is Ok <==> scan is Ok)
                &&& (r matches Ok(items) ==> zypper_items_match(items@, scan->Ok_0))
                &&& (r matches Err(e) ==> (e matches Error::XMLError(_) || e matches
                    Error::XMLAttributeError(_)))
            }),
            *self is Zypper ==> (r matches Ok(items) ==> forall|i: int|
                0 <= i < items@.len() ==> (#[trigger] items@[i]).name@.len() > 0),
    {
        match self {
            PackageManager::Zypper(z) => z.check_update(output),
            PackageManager::Dnf(d) => d.check_update(output),
        }
    }

    /// The elevated command line that downloads the pending updates, or
    /// the empty-command error when none is configured.
    pub fn download_update_command(&self) -> (r: Result<String, Error>)
        ensures
            r is Ok <==> self.spec_config().download_command@.len() > 0,
            r matches Ok(c) ==> c@ == "pkexec "@ + self.spec_config().download_command@,
            r matches Err(e) ==> e matches Error::EmptyCommand,
    {
        prepare_shell_command(self.get_config().download_command.as_str(), true)
    }

    /// Classifies the finished download command: a failure becomes a
    /// download error carrying the command's standard error text, and a
    /// captured stream that is not UTF-8 a decoding error.
    pub fn download_update_result(output: CmdOutput) -> (r: Result<(), Error>)
        ensures
            output.success && valid_utf8(output.stdout@) ==> r is Ok,
            !output.success && valid_utf8(output.stderr@) ==> (r matches Err(e) && kind_wraps(
                CmdErrorKind::Download,
                decode_utf8(output.stderr@),
                e,
            )),
            !output.success ==> r is Err,
            output.success && !valid_utf8(output.stdout@) ==> (r matches Err(e) && e matches
                Error::Utf8StringError(_)),
    {
        match process_cmd_output(output, CmdErrorKind::Download) {
            Result::Ok(_) => Result::Ok(()),
            Result::Err(e) => Result::Err(e),
        }
    }

    /// The elevated command line that applies the update: the interactive
    /// update command when the user will confirm, the non-interactive one
    /// otherwise; or the empty-command error when the chosen command is
    /// not configured.
    pub fn do_update_command(&self, interactive: bool) -> (r: Result<String, Error>)
        ensures
            interactive ==> (r is Ok <==> self.spec_config().update_command@.len() > 0),
            !interactive ==> (r is Ok <==> self.spec_config().noconfirm_update_command@.len()
                > 0),
            interactive ==> (r matches Ok(c) ==> c@ == "pkexec "@
                + self.spec_config().update_command@),
            !interactive ==> (r matches Ok(c) ==> c@ == "pkexec "@
                + self.spec_config().noconfirm_update_command@),
            r matches Err(e) ==> e matches Error::EmptyCommand,
    {
        let config = self.get_config();
        if interactive {
            prepare_shell_command(config.update_command.as_str(), true)
        } else {
            prepare_shell_command(config.noconfirm_update_command.as_str(), true)
        }
    }

    /// Classifies the finished update command. Of an interactive run only
    /// the exit status is known; a non-interactive failure carries the
    /// command's standard error text as an update error, and a captured
    /// stream that is not UTF-8 is a decoding error.
    pub fn do_update_result(interactive: bool, output: CmdOutput) -> (r: Result<(), Error>)
        ensures
            interactive ==> (r is Ok <==> output.success),
            !interactive && output.success && valid_utf8(output.stdout@) ==> r is Ok,
            !interactive && !output.success && valid_utf8(output.stderr@) ==> (r matches Err(e)
                && kind_wraps(CmdErrorKind::Update, decode_utf8(output.stderr@), e)),
            !interactive && !output.success ==> r is Err,
            !interactive && output.success && !valid_utf8(output.stdout@) ==> (r matches Err(e)
                && e matches Error::Utf8StringError(_)),
    {
        if interactive {
            interactive_result(output.success)
        } else {
            match process_cmd_output(output, CmdErrorKind::Update) {
                Result::Ok(_) => Result::Ok(()),
                Result::Err(e) => Result::Err(e),
            }
        }
    }

    /// The configured directory the backend downloads package archives
    /// into, or an error when the configuration does not name one.
    pub fn get_cached_package_path(&self) -> (r: Result<&'a String, Error>)
        ensures
            r is Ok <==> self.spec_config().cached_package_path is Some,
            r matches Ok(p) ==> self.spec_config().cached_package_path == Option::Some(*p),
            r matches Err(e) ==> e matches Error::UnkownCachedPackagePath,
    {
        match &self.get_config().cached_package_path {
            Option::Some(path) => Result::Ok(path),
            Option::None => Result::Err(Error::UnkownCachedPackagePath),
        }
    }

    /// Reads the package name and the filtered changelogs of one archive's
    /// bytes, as the shared archive reader does for both backends.
    pub fn get_package_changelogs_result(
        &self,
        query: &ChangelogQuery,
        data: &[u8],
        threshold: u64,
    ) -> (r: Result<PackageChangelogResult, Error>)
        ensures
            !rpm_layout_ok(data@) ==> (r matches Err(e) && e matches Error::MalformedRPMArchive),
            rpm_layout_ok(data@) && rpm_meta_of(data@) is None ==> (r matches Err(e) && e matches
                Error::RPMError(_)),
            rpm_layout_ok(data@) ==> (rpm_meta_of(data@) matches Some(m) ==> {
                &&& (r is Ok <==> query_matches(query@, m.0))
                &&& (r matches Ok(res) ==> res.name@ == m.0 && res.changelogs.deep_view()
                    == kept_plain_descriptions(m.1, threshold))
                &&& (r matches Err(e) ==> {
                    &&& e matches Error::PackageNameDoesNotMatch(n, f)
                    &&& n@ == m.0
                    &&& query@ matches Option::Some(q) && f@ == q
                })
            }),
    {
        crate::archive::get_rpm_changelogs_result(query, data, threshold)
    }

    /// Walks the cache directory's picture for every changelog the query
    /// matches. Fails fast when no cache directory is configured; after
    /// that, the walk of the files' named readings decides: the call
    /// succeeds exactly when some file anywhere below contributes, and the
    /// report is the join of the contributions in order.
    pub fn get_cached_changelogs(
        &self,
        query: &ChangelogQuery,
        files: &Vec<RawDirEntry>,
        threshold: u64,
    ) -> (r: Result<String, Error>)
        ensures
            self.spec_config().cached_package_path is None <==> (r matches Err(e) && e matches
                Error::UnkownCachedPackagePath),
            r matches Err(e) ==> (e matches Error::UnkownCachedPackagePath || e matches
                Error::NoChangelogsInDirectory),
            self.spec_config().cached_package_path is Some ==> {
                &&& (r is Ok <==> raw_dir_contributions(query@, files@, threshold).len() > 0)
                &&& (r matches Ok(s) ==> s@ == joined_contributions(
                    raw_dir_contributions(query@, files@, threshold),
                ))
            },
    {
        if self.get_cached_package_path().is_err() {
            return Result::Err(Error::UnkownCachedPackagePath);
        }
        let cooked = read_dir_tree(files);
        let r = get_dir_changelogs(query, &cooked, threshold);
        proof {
            assert(dir_read_of(files@, cooked@));
            lemma_read_dir_contributions(query@, files@, cooked@, threshold);
        }
        r
    }
}

} // verus!
