use std::path::PathBuf;

use maint::logic::{
    add, alias, alias_given, alias_paths, cp, cp_given, gen, move_given, move_package, newrepo,
    repo_name, restore, restore_dir, rev, rev_finish, rm, transfer_paths, upd, upd_finish,
    upd_version, view, AliasPaths, MaintError, RepoNameError, Transfer,
};
use maint::maintarg::MaintArg;
use maint::package::Package;

fn pkg(repo: &str, name: &str, vers: &str) -> Package {
    Package::new(repo, name, &format!("{vers}\n\n\n\n\n\n\n\n"), "t")
}

fn cp_text(from: &Package, to: &MaintArg) -> String {
    let from_repo = &from.repo;
    let from_name = &from.name;
    let from_dir = PathBuf::from(from.dir());
    let to_repo = to.repo;
    let to_name = to.name;
    let to_dir = PathBuf::from("/var/ports").join(to.repo).join(to.name);
    format!(r#"
        cp -av {from_dir:?} {to_dir:?}
        cd {to_dir:?}
        MSG="Copied {from_repo}/{from_name} -> {to_repo}/{to_name}"

        git add .
        git commit -qm "$MSG"

        TIMESTAMP=$(date -u "+%Y-%m-%d %H:%M:%S")
        COMMIT=$(git commit -qm "$MSG" && git rev-parse HEAD)

        # should be first message in changelog, but ill keep >> anyway ¯\_(ツ)_/¯
        echo "[$COMMIT] [$TIMESTAMP] | $MSG" >> CHANGELOG

        git add CHANGELOG
        git commit -qm "Logged $COMMIT"
    "#)
}

#[test]
fn cp_builds_command() {
    let from = pkg("core", "zlib", "1.3");
    let to = MaintArg::new("extra/zlib-ng");
    assert_eq!(cp(&from, &to, false, true, true), Ok(cp_text(&from, &to)));
}

#[test]
fn cp_checks_in_order() {
    let from = pkg("core", "zlib", "1.3");
    let to = MaintArg::new("extra/zlib-ng");
    assert_eq!(cp(&from, &to, true, false, false), Err(MaintError::DestinationExists));
    assert_eq!(cp(&from, &to, false, false, false), Err(MaintError::DestinationRepoMissing));
    assert_eq!(cp(&from, &to, false, true, false), Err(MaintError::OriginMissing));
}

#[test]
fn cp_to_root_has_no_parent() {
    let from = pkg("core", "zlib", "1.3");
    let to = MaintArg::new("x//");
    let paths = transfer_paths(&from, &to);
    assert_eq!(paths.to_dir, "/");
    assert_eq!(paths.to_parent, None);
    assert_eq!(cp(&from, &to, false, true, true), Err(MaintError::Fatherless));
}

#[test]
fn cp_to_itself_is_refused() {
    let from = pkg("core", "zlib", "1.3");
    let to = MaintArg::new("core//usr/ports/core/zlib/");
    let paths = transfer_paths(&from, &to);
    assert_eq!(paths.to_dir, "/usr/ports/core/zlib/");
    assert_eq!(paths.to_parent.as_deref(), Some("/usr/ports/core"));
    assert_eq!(cp(&from, &to, false, true, true), Err(MaintError::DestinationIdentical));
}

#[test]
fn transfer_paths_match_std() {
    let from = pkg("core", "zlib", "1.3");
    let to = MaintArg::new("extra/zlib-ng");
    let paths = transfer_paths(&from, &to);
    let to_dir = PathBuf::from("/var/ports").join("extra").join("zlib-ng");
    assert_eq!(paths.from_dir, "/usr/ports/core/zlib");
    assert_eq!(PathBuf::from(&paths.to_dir), to_dir);
    assert_eq!(paths.to_parent.map(PathBuf::from), to_dir.parent().map(|p| p.to_path_buf()));
}

#[test]
fn move_builds_command() {
    let from = pkg("core", "zlib", "1.3");
    let to = MaintArg::new("extra/zlib");
    let from_repo = &from.repo;
    let from_name = &from.name;
    let from_dir = PathBuf::from(from.dir());
    let to_repo = to.repo;
    let to_name = to.name;
    let to_dir = PathBuf::from("/var/ports").join(to.repo).join(to.name);
    let expected = format!(
        r#"
        mv -v {from_dir:?} {to_dir:?}
        cd /var/ports/{from_repo}
        MSG="Moved {from_repo}/{from_name} -> {to_repo}/{to_name}"

        git rm -r "{from_name}"
        git commit -qm "$MSG"

        cd {to_dir:?}
        git add .
        TIMESTAMP=$(date -u "+%Y-%m-%d %H:%M:%S")
        COMMIT=$(git commit -qm "$MSG" && git rev-parse HEAD)

        echo "[$COMMIT] [$TIMESTAMP] | $MSG" >> CHANGELOG

        git add CHANGELOG
        git commit -qm "Logged $COMMIT"
    "#
    );
    assert_eq!(move_package(&from, &to, false, true, true), Ok(expected));
    assert_eq!(move_package(&from, &to, false, true, false), Err(MaintError::OriginMissing));
}

#[test]
fn alias_builds_command() {
    let origin = pkg("core", "zlib", "1.3");
    let target = MaintArg::new("extra/libz");
    let origin_repo = &origin.repo;
    let origin_name = &origin.name;
    let origin_path = PathBuf::from("/usr/ports").join(&origin.repo).join(&origin.name);
    let alias_repo = target.repo;
    let alias_name = target.name;
    let alias_repo_dir = PathBuf::from("/usr/ports").join(target.repo);
    let expected = format!(r#"
        cd {alias_repo_dir:?}

        if [[ {alias_repo} == {origin_repo} ]]; then
            ln -sv {origin_name} {alias_name}
        else
            # note, this is probably ill-advised as it requires the end user to have both repos
            ln -sv ../{origin_repo}/{origin_name} {alias_name}
        fi

        MSG="Added alias {alias_repo}/{alias_name} for {origin_repo}/{origin_name}"

        git add {alias_name}
        git commit -qm "$MSG"

        TIMESTAMP=$(date -u "+%Y-%m-%d %H:%M:%S")
        COMMIT=$(git commit -qm "$MSG" && git rev-parse HEAD)

        echo "[$COMMIT] [$TIMESTAMP] | $MSG" >> {origin_path:?}/CHANGELOG

        git add {origin_path:?}/CHANGELOG
        git commit -qm "Logged $COMMIT"
    "#);
    assert_eq!(alias(&origin, &target, false, true, true), Ok(expected));
    let paths = alias_paths(&origin, &target);
    assert_eq!(paths.origin_path, "/usr/ports/core/zlib");
    assert_eq!(paths.alias_repo_dir, "/usr/ports/extra");
    assert_eq!(paths.alias_path, "/usr/ports/extra/libz");
}

#[test]
fn alias_checks_in_order() {
    let origin = pkg("core", "zlib", "1.3");
    let same = MaintArg::new("core/zlib");
    assert_eq!(alias(&origin, &same, true, true, true), Err(MaintError::AliasExists));
    assert_eq!(alias(&origin, &same, false, false, true), Err(MaintError::AliasRepoMissing));
    assert_eq!(alias(&origin, &same, false, true, false), Err(MaintError::OriginMissing));
    assert_eq!(alias(&origin, &same, false, true, true), Err(MaintError::AliasIdentical));
}

#[test]
fn restore_builds_command() {
    let p = MaintArg::new("core/zlib");
    let commit = "abc123";
    let name = &p.name;
    let dir = PathBuf::from("/usr/ports").join(p.repo).join(name);
    let expected = format!(r#"
        cd "{dir:?}"

        git restore --staged --worktree --source={commit} -- $(git ls-tree -r --name-only {commit} | grep -v CHANGELOG)

        MSG="Restored {name}: Back to {commit}"

        git add .
        TIMESTAMP=$(date -u "+%Y-%m-%d %H:%M:%S")
        COMMIT=$(git commit -qm "$MSG" && git rev-parse HEAD)
        
        echo "[$COMMIT] [$TIMESTAMP] | $MSG" >> CHANGELOG

        git add CHANGELOG
        git commit -qm "Logged $COMMIT"
    "#);
    assert_eq!(restore_dir(&p), "/usr/ports/core/zlib");
    assert_eq!(restore(&p, commit, true), Ok(expected));
    assert_eq!(restore(&p, commit, false), Err(MaintError::PackageDirMissing));
}

#[test]
fn view_builds_command() {
    let p = pkg("core", "zlib", "1.3");
    let dir = p.dir();
    let expected = format!(
        r#"
        nvim -R "{dir}"/BUILD
        "#
    );
    assert_eq!(view(&p, true), Ok(expected));
    assert_eq!(view(&p, false), Err(MaintError::PackageMissing));
}

#[test]
fn rm_builds_command() {
    let p = pkg("core", "zlib", "1.3");
    let repo = &p.repo;
    let name = &p.name;
    let version = &p.version;
    let expected = format!(
        r#"
        cd "/var/ports/{repo}"

        git rm -r "{name}"
        git commit -qm "Removed {name}={version}"
    "#
    );
    assert_eq!(rm(&p, true), Ok(expected));
    let err = rm(&p, false).unwrap_err();
    assert_eq!(err, MaintError::NoSuchPackage("core/zlib=1.3".to_string()));
    assert_eq!(err.message(), "Package 'core/zlib=1.3' does not exist!");
}

#[test]
fn error_messages() {
    assert_eq!(MaintError::AliasExists.message(), "Alias exists!");
    assert_eq!(MaintError::Fatherless.message(), "Fatherless.");
    assert_eq!(MaintError::DestinationRepoMissing.message(), "Destination repo doesn't exist!");
    assert_eq!(MaintError::PackageMissing.message(), "Package does not exist");
    assert_eq!(MaintError::PackageDirMissing.message(), "Package directory does not exist");
}

#[test]
fn gen_hashes_sources_and_builds_command() {
    let mut p = Package::new(
        "core",
        "zlib",
        "1.3\n\n\n\nhttps://z.net/zlib-1.3.tar.xz\nhttps://a.org/1.patch https://a.org/2.patch\n\n\n",
        "t",
    );
    let cmd = gen(&mut p, &Some(b"abc".to_vec()), &vec![b"".to_vec(), b"hello world\n".to_vec()]);
    let src = p.source.as_ref().unwrap();
    assert_eq!(src.url, "https://z.net/zlib-1.3.tar.xz");
    assert_eq!(src.hash, "ungWv48Bz-pBQUDeXa4iI7ADYaOWF3qctBD_YfIAFa0");
    let extra = p.extra.as_ref().unwrap();
    assert_eq!(extra[0].hash, "47DEQpj8HBSa-_TImW-5JCeuQeRkm5NMpJWZG3hSuFU");
    assert_eq!(extra[1].hash, "qUiQTy8PR5uPgZdpSzAYSw0u0cHNKh7A-4XSmaGSpEc");
    assert_eq!(extra[1].url, "https://a.org/2.patch");
    let dir = p.dir();
    let name = &p.name;
    let version = &p.version;
    let expected = format!(r#"
        set -x

        cd "{dir}"
        mkdir -pv .{{build,data,dist,logs,sources}}

        MSG="Generated {name}={version}"

        # Bail if nothing changed
        [ -z "$(git status -s .)" ] && exit 0

        git add info.lock
        TIMESTAMP=$(date -u "+%Y-%m-%d %H:%M:%S")
        COMMIT=$(git commit -qm "$MSG" && git rev-parse HEAD)

        echo "[$COMMIT] [$TIMESTAMP] | $MSG" >> CHANGELOG

        git add CHANGELOG
        git commit -qm "Logged $COMMIT"
    "#);
    assert_eq!(cmd, expected);
}

#[test]
fn add_plans_new_package() {
    let p = MaintArg::new("core/zlib=1.3");
    let plan = add(&p);
    let name = p.name;
    let version = p.version.unwrap();
    let dir = format!("/var/ports/{}/{}", p.repo, p.name);
    assert_eq!(plan.dir, dir);
    assert_eq!(plan.build_path, "/var/ports/core/zlib/BUILD");
    let template = format!(
r#"NAME="{name}"
VERS="{version}"
DESC=""
CATG=""
UPST=""
DEPS=()

SOURCE=""
EXTRA=()

2b() {{

}}"#);
    assert_eq!(plan.template, template);
    assert_eq!(plan.edit_command, format!(r#"
        "${{EDITOR:-/usr/bin/nvim}}" {dir}/BUILD
    "#));
    assert_eq!(plan.finalize_command, format!(r#"
        cd "{dir}"
        MSG="Added {name}={version}"

        git add .
        TIMESTAMP=$(date -u "+%Y-%m-%d %H:%M:%S")
        COMMIT=$(git commit -qm "$MSG" && git rev-parse HEAD)

        echo "[$COMMIT] [$TIMESTAMP] | $MSG" >> CHANGELOG

        git add CHANGELOG
        git commit -qm "Logged $COMMIT"
    "#));
}

const BUILD: &str = "NAME=\"zlib\"\nVERS=\"1.3\"\n#d old note\nDESC=\"x\"\n#d another";

#[test]
fn rev_strips_descriptions() {
    let p = pkg("core", "zlib", "1.3");
    assert_eq!(rev(&p, None), Err(MaintError::PackageMissing));
    let e = rev(&p, Some(BUILD)).unwrap();
    assert_eq!(e.contents, "NAME=\"zlib\"\nVERS=\"1.3\"\nDESC=\"x\"");
    assert!(e.command.contains("\"${EDITOR:-/usr/bin/nvim}\" BUILD"));
    assert!(e.command.starts_with("\n        cd \"/usr/ports/core/zlib\"\n"));
}

#[test]
fn rev_finish_records_description() {
    let p = pkg("core", "zlib", "1.3");
    let dir = p.dir();
    let name = &p.name;
    let desc = "fixed the build";
    let expected = format!(
        r#"
        cd "{dir}"
        [ -z "$(git status -s)" ] && exit 0 # don't log when nothing changed

        MSG="Revised {name}"

        git add .
        TIMESTAMP=$(date -u "+%Y-%m-%d %H:%M:%S")
        COMMIT=$(git commit -qm "$MSG" -m "{desc}" && git rev-parse HEAD)
        
        if [ -z "{desc}" ]; then
          echo "[$COMMIT] [$TIMESTAMP] | $MSG" >> CHANGELOG
        else
          echo "[$COMMIT] [$TIMESTAMP] | $MSG: {desc}" >> CHANGELOG
        fi

        git add CHANGELOG
        git commit -qm "Logged $COMMIT"
    "#
    );
    assert_eq!(rev_finish(&p, "VERS=\"1.3\"\n#d  fixed the build  \n"), expected);
    let none = rev_finish(&p, "VERS=\"1.3\"\nDESC=\"\"");
    assert!(none.contains("-m \"\" && git rev-parse HEAD"));
}

#[test]
fn upd_replaces_version() {
    let p = pkg("core", "zlib", "1.3");
    let new = MaintArg::new("core/zlib=1.4");
    assert_eq!(upd(&p, &new, None), Err(MaintError::PackageMissing));
    let e = upd(&p, &new, Some(BUILD)).unwrap();
    assert_eq!(e.contents, "NAME=\"zlib\"\nVERS=\"1.4\"\nDESC=\"x\"");
    let dir = p.dir();
    assert_eq!(e.command, format!(r#"
        cd "{dir}"
        "${{EDITOR:-/usr/bin/nvim}}" BUILD
    "#));
}

#[test]
fn upd_finish_and_version() {
    let p = pkg("core", "zlib", "1.3");
    let dir = p.dir();
    let name = &p.name;
    let old_version = &p.version;
    let desc = "";
    let expected = format!(
        r#"
        cd "{dir}"
        source BUILD

        MSG="Updated {name}: {old_version} -> $VERS"

        git add .
        TIMESTAMP=$(date -u "+%Y-%m-%d %H:%M:%S")
        COMMIT=$(git commit -qm "$MSG" -m "{desc}" && git rev-parse HEAD)
        
        if [ -z "{desc}" ]; then
          echo "[$COMMIT] [$TIMESTAMP] | $MSG" >> CHANGELOG
        else
          echo "[$COMMIT] [$TIMESTAMP] | $MSG: {desc}" >> CHANGELOG
        fi

        git add CHANGELOG
        git commit -qm "Logged $COMMIT"

        echo "$VERS"
    "#
    );
    assert_eq!(upd_finish(&p, "VERS=\"1.4\""), expected);
    assert_eq!(upd_version("  1.4\n"), "1.4");
}

#[test]
fn repo_names() {
    assert_eq!(repo_name("https://github.com/me/2-extra.git"), Ok("extra".to_string()));
    assert_eq!(repo_name("https://github.com/me/2-core"), Ok("core".to_string()));
    assert_eq!(repo_name("https://x/2-a-b.git.git"), Ok("a-b".to_string()));
    assert_eq!(repo_name("nourl"), Err(RepoNameError::InvalidUrl));
    assert_eq!(repo_name("https://x/extra.git"), Err(RepoNameError::InvalidRepoName));
    assert_eq!(repo_name("https://x/2-.git"), Err(RepoNameError::NoRepoName));
}

#[test]
fn newrepo_plans_repository() {
    let url = "https://github.com/me/2-extra.git";
    let plan = newrepo(url);
    assert_eq!(plan.name, "extra");
    assert_eq!(plan.dir, "/var/ports/extra");
    let repo_name = "extra";
    let dir = PathBuf::from(format!("/var/ports/{repo_name}"));
    let expected = format!(
        r#"
        cd {dir:?}
        echo '*/.*' > .gitignore
        echo 'shell=bash' > .shellcheckrc
        echo 'disable=SC2034' >> .shellcheckrc

        echo '# {repo_name}' > README.md
        curl -fsSL -o LICENSE 'https://www.gnu.org/licenses/gpl-3.0.txt'
        echo "Licensing under GPL3 by default. You can change this if you want."

        git init
        git add .
        git commit -m "Initial commit"
        git branch -M master
        git remote add origin {url}
        git push -u origin master
        "#
    );
    assert_eq!(plan.command, expected);
}

#[test]
fn core_script_wraps_command() {
    let command = "echo hi";
    let expected = format!(
    r"
    source /usr/share/2/bin/e-core || exit 211
    {command}
    "
    );
    assert_eq!(maint::commands::core_text(command), expected);
}

#[test]
fn cp_given_decides_on_given_paths() {
    let from = pkg("core", "zlib", "1.3");
    let to = MaintArg::new("extra/z");
    let paths = Transfer {
        from_dir: "F".to_string(),
        to_dir: "T".to_string(),
        to_parent: Some("P".to_string()),
        identical: false,
        from_quoted: "<f>".to_string(),
        to_quoted: "<t>".to_string(),
    };
    let c = cp_given(&from, &to, &paths, false, true, true).unwrap();
    assert!(c.starts_with("\n        cp -av <f> <t>\n        cd <t>\n        MSG=\"Copied core/zlib -> extra/z\""));
    let m = move_given(&from, &to, &paths, false, true, true).unwrap();
    assert!(m.starts_with("\n        mv -v <f> <t>\n        cd /var/ports/core\n"));
    let same = Transfer { identical: true, ..paths };
    assert_eq!(cp_given(&from, &to, &same, false, true, true), Err(MaintError::DestinationIdentical));
    assert!(move_given(&from, &to, &same, false, true, true).is_ok());
    let orphan = Transfer { to_parent: None, ..same };
    assert_eq!(cp_given(&from, &to, &orphan, false, true, true), Err(MaintError::Fatherless));
    assert_eq!(move_given(&from, &to, &orphan, false, true, true), Err(MaintError::Fatherless));
}

#[test]
fn alias_given_decides_on_given_paths() {
    let origin = pkg("core", "zlib", "1.3");
    let target = MaintArg::new("core/libz");
    let paths = AliasPaths {
        origin_path: "O".to_string(),
        alias_repo_dir: "R".to_string(),
        alias_path: "A".to_string(),
        identical: false,
        alias_repo_quoted: "<r>".to_string(),
        origin_quoted: "<o>".to_string(),
    };
    let c = alias_given(&origin, &target, &paths, false, true, true).unwrap();
    assert!(c.starts_with("\n        cd <r>\n\n        if [[ core == core ]]; then\n            ln -sv zlib libz\n"));
    assert!(c.contains(">> <o>/CHANGELOG"));
    let same = AliasPaths { identical: true, ..paths };
    assert_eq!(alias_given(&origin, &target, &same, false, true, true), Err(MaintError::AliasIdentical));
}

#[test]
fn update_without_version_line_equals_revision() {
    let p = pkg("core", "zlib", "9.9");
    let new = MaintArg::new("core/zlib=10");
    let build = "NAME=\"zlib\"\n#d note\nVERS=\"1.3\"";
    assert_eq!(upd(&p, &new, Some(build)).unwrap().contents, rev(&p, Some(build)).unwrap().contents);
}
