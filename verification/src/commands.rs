//! The texts of the shell commands and files that the maintainer tools
//! write: each is fixed text with the given values put in.
use vstd::prelude::*;
use vstd::string::*;

use crate::text::{
    ends_with_of, lemma_occurs_across, lemma_occurs_extended, occurs_at,
    starts_with_of,
};

verus! {

pub const TEMPLATE_1: &'static str = "NAME=\"";
pub const TEMPLATE_2: &'static str = "\"\nVERS=\"";
pub const TEMPLATE_3: &'static str = "\"\nDESC=\"\"\nCATG=\"\"\nUPST=\"\"\nDEPS=()\n\nSOURCE=\"\"\nEXTRA=()\n\n2b() {\n\n}";

/// The `BUILD` that a new package starts from.
pub open spec fn template_text_of(name: Seq<char>, version: Seq<char>) -> Seq<char> {
    TEMPLATE_1@ + name + TEMPLATE_2@ + version + TEMPLATE_3@
}

/// The `BUILD` that a new package starts from.
pub fn template_text(name: &str, version: &str) -> (res: String)
    ensures
        res@ == template_text_of(name@, version@),
{
    let mut t = String::from_str(TEMPLATE_1);
    t.append(name);
    t.append(TEMPLATE_2);
    t.append(version);
    t.append(TEMPLATE_3);
    t
}

pub const ADD_EDIT_1: &'static str = "\n        \"${EDITOR:-/usr/bin/nvim}\" ";
pub const ADD_EDIT_2: &'static str = "/BUILD\n    ";

/// The command that opens a new `BUILD` in the editor.
pub open spec fn add_edit_text_of(dir: Seq<char>) -> Seq<char> {
    ADD_EDIT_1@ + dir + ADD_EDIT_2@
}

/// The command that opens a new `BUILD` in the editor.
pub fn add_edit_text(dir: &str) -> (res: String)
    ensures
        res@ == add_edit_text_of(dir@),
{
    let mut t = String::from_str(ADD_EDIT_1);
    t.append(dir);
    t.append(ADD_EDIT_2);
    t
}

pub const ADD_FINALIZE_1: &'static str = "\n        cd \"";
pub const ADD_FINALIZE_2: &'static str = "\"\n        MSG=\"Added ";
pub const ADD_FINALIZE_3: &'static str = "=";
pub const ADD_FINALIZE_4: &'static str = "\"\n\n        git add .\n        TIMESTAMP=$(date -u \"+%Y-%m-%d %H:%M:%S\")\n        COMMIT=$(git commit -qm \"$MSG\" && git rev-parse HEAD)\n\n        echo \"[$COMMIT] [$TIMESTAMP] | $MSG\" >> CHANGELOG\n\n        git add CHANGELOG\n        git commit -qm \"Logged $COMMIT\"\n    ";

/// The command that commits an added package and logs the commit.
pub open spec fn add_finalize_text_of(dir: Seq<char>, name: Seq<char>, version: Seq<char>) -> Seq<char> {
    ADD_FINALIZE_1@ + dir + ADD_FINALIZE_2@ + name + ADD_FINALIZE_3@ + version + ADD_FINALIZE_4@
}

/// The command that commits an added package and logs the commit.
pub fn add_finalize_text(dir: &str, name: &str, version: &str) -> (res: String)
    ensures
        res@ == add_finalize_text_of(dir@, name@, version@),
{
    let mut t = String::from_str(ADD_FINALIZE_1);
    t.append(dir);
    t.append(ADD_FINALIZE_2);
    t.append(name);
    t.append(ADD_FINALIZE_3);
    t.append(version);
    t.append(ADD_FINALIZE_4);
    t
}

pub const ALIAS_1: &'static str = "\n        cd ";
pub const ALIAS_2: &'static str = "\n\n        if [[ ";
pub const ALIAS_3: &'static str = " == ";
pub const ALIAS_4: &'static str = " ]]; then\n            ln -sv ";
pub const ALIAS_5: &'static str = " ";
pub const ALIAS_6: &'static str = "\n        else\n            # note, this is probably ill-advised as it requires the end user to have both repos\n            ln -sv ../";
pub const ALIAS_7: &'static str = "/";
pub const ALIAS_8: &'static str = " ";
pub const ALIAS_9: &'static str = "\n        fi\n\n        MSG=\"Added alias ";
pub const ALIAS_10: &'static str = "/";
pub const ALIAS_11: &'static str = " for ";
pub const ALIAS_12: &'static str = "/";
pub const ALIAS_13: &'static str = "\"\n\n        git add ";
pub const ALIAS_14: &'static str = "\n        git commit -qm \"$MSG\"\n\n        TIMESTAMP=$(date -u \"+%Y-%m-%d %H:%M:%S\")\n        COMMIT=$(git commit -qm \"$MSG\" && git rev-parse HEAD)\n\n        echo \"[$COMMIT] [$TIMESTAMP] | $MSG\" >> ";
pub const ALIAS_15: &'static str = "/CHANGELOG\n\n        git add ";
pub const ALIAS_16: &'static str = "/CHANGELOG\n        git commit -qm \"Logged $COMMIT\"\n    ";

/// The command that links an alias to its origin, commits the link and logs the commit.
pub open spec fn alias_text_of(alias_repo_dir: Seq<char>, alias_repo: Seq<char>, origin_repo: Seq<char>, origin_name: Seq<char>, alias_name: Seq<char>, origin_path: Seq<char>) -> Seq<char> {
    ALIAS_1@ + alias_repo_dir + ALIAS_2@ + alias_repo + ALIAS_3@ + origin_repo + ALIAS_4@ + origin_name + ALIAS_5@ + alias_name + ALIAS_6@ + origin_repo + ALIAS_7@ + origin_name + ALIAS_8@ + alias_name + ALIAS_9@ + alias_repo + ALIAS_10@ + alias_name + ALIAS_11@ + origin_repo + ALIAS_12@ + origin_name + ALIAS_13@ + alias_name + ALIAS_14@ + origin_path + ALIAS_15@ + origin_path + ALIAS_16@
}

/// The command that links an alias to its origin, commits the link and logs the commit.
pub fn alias_text(alias_repo_dir: &str, alias_repo: &str, origin_repo: &str, origin_name: &str, alias_name: &str, origin_path: &str) -> (res: String)
    ensures
        res@ == alias_text_of(alias_repo_dir@, alias_repo@, origin_repo@, origin_name@, alias_name@, origin_path@),
{
    let mut t = String::from_str(ALIAS_1);
    t.append(alias_repo_dir);
    t.append(ALIAS_2);
    t.append(alias_repo);
    t.append(ALIAS_3);
    t.append(origin_repo);
    t.append(ALIAS_4);
    t.append(origin_name);
    t.append(ALIAS_5);
    t.append(alias_name);
    t.append(ALIAS_6);
    t.append(origin_repo);
    t.append(ALIAS_7);
    t.append(origin_name);
    t.append(ALIAS_8);
    t.append(alias_name);
    t.append(ALIAS_9);
    t.append(alias_repo);
    t.append(ALIAS_10);
    t.append(alias_name);
    t.append(ALIAS_11);
    t.append(origin_repo);
    t.append(ALIAS_12);
    t.append(origin_name);
    t.append(ALIAS_13);
    t.append(alias_name);
    t.append(ALIAS_14);
    t.append(origin_path);
    t.append(ALIAS_15);
    t.append(origin_path);
    t.append(ALIAS_16);
    t
}

pub const CP_1: &'static str = "\n        cp -av ";
pub const CP_2: &'static str = " ";
pub const CP_3: &'static str = "\n        cd ";
pub const CP_4: &'static str = "\n        MSG=\"Copied ";
pub const CP_5: &'static str = "/";
pub const CP_6: &'static str = " -> ";
pub const CP_7: &'static str = "/";
pub const CP_8: &'static str = "\"\n\n        git add .\n        git commit -qm \"$MSG\"\n\n        TIMESTAMP=$(date -u \"+%Y-%m-%d %H:%M:%S\")\n        COMMIT=$(git commit -qm \"$MSG\" && git rev-parse HEAD)\n\n        # should be first message in changelog, but ill keep >> anyway ¯\\_(ツ)_/¯\n        echo \"[$COMMIT] [$TIMESTAMP] | $MSG\" >> CHANGELOG\n\n        git add CHANGELOG\n        git commit -qm \"Logged $COMMIT\"\n    ";

/// The command that copies a package, commits the copy and logs the commit.
pub open spec fn cp_text_of(from_dir: Seq<char>, to_dir: Seq<char>, from_repo: Seq<char>, from_name: Seq<char>, to_repo: Seq<char>, to_name: Seq<char>) -> Seq<char> {
    CP_1@ + from_dir + CP_2@ + to_dir + CP_3@ + to_dir + CP_4@ + from_repo + CP_5@ + from_name + CP_6@ + to_repo + CP_7@ + to_name + CP_8@
}

/// The command that copies a package, commits the copy and logs the commit.
pub fn cp_text(from_dir: &str, to_dir: &str, from_repo: &str, from_name: &str, to_repo: &str, to_name: &str) -> (res: String)
    ensures
        res@ == cp_text_of(from_dir@, to_dir@, from_repo@, from_name@, to_repo@, to_name@),
{
    let mut t = String::from_str(CP_1);
    t.append(from_dir);
    t.append(CP_2);
    t.append(to_dir);
    t.append(CP_3);
    t.append(to_dir);
    t.append(CP_4);
    t.append(from_repo);
    t.append(CP_5);
    t.append(from_name);
    t.append(CP_6);
    t.append(to_repo);
    t.append(CP_7);
    t.append(to_name);
    t.append(CP_8);
    t
}

pub const GEN_1: &'static str = "\n        set -x\n\n        cd \"";
pub const GEN_2: &'static str = "\"\n        mkdir -pv .{build,data,dist,logs,sources}\n\n        MSG=\"Generated ";
pub const GEN_3: &'static str = "=";
pub const GEN_4: &'static str = "\"\n\n        # Bail if nothing changed\n        [ -z \"$(git status -s .)\" ] && exit 0\n\n        git add info.lock\n        TIMESTAMP=$(date -u \"+%Y-%m-%d %H:%M:%S\")\n        COMMIT=$(git commit -qm \"$MSG\" && git rev-parse HEAD)\n\n        echo \"[$COMMIT] [$TIMESTAMP] | $MSG\" >> CHANGELOG\n\n        git add CHANGELOG\n        git commit -qm \"Logged $COMMIT\"\n    ";

/// The command that sets up a package's work directories, commits its lock and logs the commit.
pub open spec fn gen_text_of(dir: Seq<char>, name: Seq<char>, version: Seq<char>) -> Seq<char> {
    GEN_1@ + dir + GEN_2@ + name + GEN_3@ + version + GEN_4@
}

/// The command that sets up a package's work directories, commits its lock and logs the commit.
pub fn gen_text(dir: &str, name: &str, version: &str) -> (res: String)
    ensures
        res@ == gen_text_of(dir@, name@, version@),
{
    let mut t = String::from_str(GEN_1);
    t.append(dir);
    t.append(GEN_2);
    t.append(name);
    t.append(GEN_3);
    t.append(version);
    t.append(GEN_4);
    t
}

pub const MOVE_1: &'static str = "\n        mv -v ";
pub const MOVE_2: &'static str = " ";
pub const MOVE_3: &'static str = "\n        cd /var/ports/";
pub const MOVE_4: &'static str = "\n        MSG=\"Moved ";
pub const MOVE_5: &'static str = "/";
pub const MOVE_6: &'static str = " -> ";
pub const MOVE_7: &'static str = "/";
pub const MOVE_8: &'static str = "\"\n\n        git rm -r \"";
pub const MOVE_9: &'static str = "\"\n        git commit -qm \"$MSG\"\n\n        cd ";
pub const MOVE_10: &'static str = "\n        git add .\n        TIMESTAMP=$(date -u \"+%Y-%m-%d %H:%M:%S\")\n        COMMIT=$(git commit -qm \"$MSG\" && git rev-parse HEAD)\n\n        echo \"[$COMMIT] [$TIMESTAMP] | $MSG\" >> CHANGELOG\n\n        git add CHANGELOG\n        git commit -qm \"Logged $COMMIT\"\n    ";

/// The command that moves a package, commits the move in both repositories and logs the commit.
pub open spec fn move_text_of(from_dir: Seq<char>, to_dir: Seq<char>, from_repo: Seq<char>, from_name: Seq<char>, to_repo: Seq<char>, to_name: Seq<char>) -> Seq<char> {
    MOVE_1@ + from_dir + MOVE_2@ + to_dir + MOVE_3@ + from_repo + MOVE_4@ + from_repo + MOVE_5@ + from_name + MOVE_6@ + to_repo + MOVE_7@ + to_name + MOVE_8@ + from_name + MOVE_9@ + to_dir + MOVE_10@
}

/// The command that moves a package, commits the move in both repositories and logs the commit.
pub fn move_text(from_dir: &str, to_dir: &str, from_repo: &str, from_name: &str, to_repo: &str, to_name: &str) -> (res: String)
    ensures
        res@ == move_text_of(from_dir@, to_dir@, from_repo@, from_name@, to_repo@, to_name@),
{
    let mut t = String::from_str(MOVE_1);
    t.append(from_dir);
    t.append(MOVE_2);
    t.append(to_dir);
    t.append(MOVE_3);
    t.append(from_repo);
    t.append(MOVE_4);
    t.append(from_repo);
    t.append(MOVE_5);
    t.append(from_name);
    t.append(MOVE_6);
    t.append(to_repo);
    t.append(MOVE_7);
    t.append(to_name);
    t.append(MOVE_8);
    t.append(from_name);
    t.append(MOVE_9);
    t.append(to_dir);
    t.append(MOVE_10);
    t
}

pub const NEWREPO_1: &'static str = "\n        cd ";
pub const NEWREPO_2: &'static str = "\n        echo '*/.*' > .gitignore\n        echo 'shell=bash' > .shellcheckrc\n        echo 'disable=SC2034' >> .shellcheckrc\n\n        echo '# ";
pub const NEWREPO_3: &'static str = "' > README.md\n        curl -fsSL -o LICENSE 'https://www.gnu.org/licenses/gpl-3.0.txt'\n        echo \"Licensing under GPL3 by default. You can change this if you want.\"\n\n        git init\n        git add .\n        git commit -m \"Initial commit\"\n        git branch -M master\n        git remote add origin ";
pub const NEWREPO_4: &'static str = "\n        git push -u origin master\n        ";

/// The command that sets up, commits and pushes a new repository.
pub open spec fn newrepo_text_of(dir: Seq<char>, repo_name: Seq<char>, url: Seq<char>) -> Seq<char> {
    NEWREPO_1@ + dir + NEWREPO_2@ + repo_name + NEWREPO_3@ + url + NEWREPO_4@
}

/// The command that sets up, commits and pushes a new repository.
pub fn newrepo_text(dir: &str, repo_name: &str, url: &str) -> (res: String)
    ensures
        res@ == newrepo_text_of(dir@, repo_name@, url@),
{
    let mut t = String::from_str(NEWREPO_1);
    t.append(dir);
    t.append(NEWREPO_2);
    t.append(repo_name);
    t.append(NEWREPO_3);
    t.append(url);
    t.append(NEWREPO_4);
    t
}

pub const RESTORE_1: &'static str = "\n        cd \"";
pub const RESTORE_2: &'static str = "\"\n\n        git restore --staged --worktree --source=";
pub const RESTORE_3: &'static str = " -- $(git ls-tree -r --name-only ";
pub const RESTORE_4: &'static str = " | grep -v CHANGELOG)\n\n        MSG=\"Restored ";
pub const RESTORE_5: &'static str = ": Back to ";
pub const RESTORE_6: &'static str = "\"\n\n        git add .\n        TIMESTAMP=$(date -u \"+%Y-%m-%d %H:%M:%S\")\n        COMMIT=$(git commit -qm \"$MSG\" && git rev-parse HEAD)\n        \n        echo \"[$COMMIT] [$TIMESTAMP] | $MSG\" >> CHANGELOG\n\n        git add CHANGELOG\n        git commit -qm \"Logged $COMMIT\"\n    ";

/// The command that restores a package's files from a commit, commits them and logs the commit.
pub open spec fn restore_text_of(dir: Seq<char>, commit: Seq<char>, name: Seq<char>) -> Seq<char> {
    RESTORE_1@ + dir + RESTORE_2@ + commit + RESTORE_3@ + commit + RESTORE_4@ + name + RESTORE_5@ + commit + RESTORE_6@
}

/// The command that restores a package's files from a commit, commits them and logs the commit.
pub fn restore_text(dir: &str, commit: &str, name: &str) -> (res: String)
    ensures
        res@ == restore_text_of(dir@, commit@, name@),
{
    let mut t = String::from_str(RESTORE_1);
    t.append(dir);
    t.append(RESTORE_2);
    t.append(commit);
    t.append(RESTORE_3);
    t.append(commit);
    t.append(RESTORE_4);
    t.append(name);
    t.append(RESTORE_5);
    t.append(commit);
    t.append(RESTORE_6);
    t
}

pub const REV_EDIT_1: &'static str = "\n        cd \"";
pub const REV_EDIT_2: &'static str = "\"\n        mkdir -p /tmp/2/m-diffs\n        \n        source BUILD\n        declare -p > /tmp/2/m-diffs/pre\n\n        \"${EDITOR:-/usr/bin/nvim}\" BUILD\n        # unset in case any of these are deleted\n        unset NAME VERS SOURCE UPST VCMD EXTRA DESC DEPS\n\n        source BUILD\n        declare -p > /tmp/2/m-diffs/post\n\n        diff /tmp/2/m-diffs/p{re,ost} > /tmp/2/m-diffs/diffs\n\n        if grep -E 'NAME|VERS' /tmp/2/m-diffs/diffs; then\n            echo -e \"\\x1b[31;1mBad maintainer!!\\nYou do not change \\$NAME or \\$VERS when revising packages.\\nUse the correct flags if you want to move or update a package.\\x1b[0m\"\n            exit 2 # bad usage\n        fi\n    ";

/// The command that opens a package's `BUILD` in the editor and refuses a change of `NAME` or `VERS`.
pub open spec fn rev_edit_text_of(dir: Seq<char>) -> Seq<char> {
    REV_EDIT_1@ + dir + REV_EDIT_2@
}

/// The command that opens a package's `BUILD` in the editor and refuses a change of `NAME` or `VERS`.
pub fn rev_edit_text(dir: &str) -> (res: String)
    ensures
        res@ == rev_edit_text_of(dir@),
{
    let mut t = String::from_str(REV_EDIT_1);
    t.append(dir);
    t.append(REV_EDIT_2);
    t
}

pub const REV_COMMIT_1: &'static str = "\n        cd \"";
pub const REV_COMMIT_2: &'static str = "\"\n        [ -z \"$(git status -s)\" ] && exit 0 # don't log when nothing changed\n\n        MSG=\"Revised ";
pub const REV_COMMIT_3: &'static str = "\"\n\n        git add .\n        TIMESTAMP=$(date -u \"+%Y-%m-%d %H:%M:%S\")\n        COMMIT=$(git commit -qm \"$MSG\" -m \"";
pub const REV_COMMIT_4: &'static str = "\" && git rev-parse HEAD)\n        \n        if [ -z \"";
pub const REV_COMMIT_5: &'static str = "\" ]; then\n          echo \"[$COMMIT] [$TIMESTAMP] | $MSG\" >> CHANGELOG\n        else\n          echo \"[$COMMIT] [$TIMESTAMP] | $MSG: ";
pub const REV_COMMIT_6: &'static str = "\" >> CHANGELOG\n        fi\n\n        git add CHANGELOG\n        git commit -qm \"Logged $COMMIT\"\n    ";

/// The command that commits a revised package, with its description, and logs the commit.
pub open spec fn rev_commit_text_of(dir: Seq<char>, name: Seq<char>, desc: Seq<char>) -> Seq<char> {
    REV_COMMIT_1@ + dir + REV_COMMIT_2@ + name + REV_COMMIT_3@ + desc + REV_COMMIT_4@ + desc + REV_COMMIT_5@ + desc + REV_COMMIT_6@
}

/// The command that commits a revised package, with its description, and logs the commit.
pub fn rev_commit_text(dir: &str, name: &str, desc: &str) -> (res: String)
    ensures
        res@ == rev_commit_text_of(dir@, name@, desc@),
{
    let mut t = String::from_str(REV_COMMIT_1);
    t.append(dir);
    t.append(REV_COMMIT_2);
    t.append(name);
    t.append(REV_COMMIT_3);
    t.append(desc);
    t.append(REV_COMMIT_4);
    t.append(desc);
    t.append(REV_COMMIT_5);
    t.append(desc);
    t.append(REV_COMMIT_6);
    t
}

pub const RM_1: &'static str = "\n        cd \"/var/ports/";
pub const RM_2: &'static str = "\"\n\n        git rm -r \"";
pub const RM_3: &'static str = "\"\n        git commit -qm \"Removed ";
pub const RM_4: &'static str = "=";
pub const RM_5: &'static str = "\"\n    ";

/// The command that commits the removal of a package.
pub open spec fn rm_text_of(repo: Seq<char>, name: Seq<char>, version: Seq<char>) -> Seq<char> {
    RM_1@ + repo + RM_2@ + name + RM_3@ + name + RM_4@ + version + RM_5@
}

/// The command that commits the removal of a package.
pub fn rm_text(repo: &str, name: &str, version: &str) -> (res: String)
    ensures
        res@ == rm_text_of(repo@, name@, version@),
{
    let mut t = String::from_str(RM_1);
    t.append(repo);
    t.append(RM_2);
    t.append(name);
    t.append(RM_3);
    t.append(name);
    t.append(RM_4);
    t.append(version);
    t.append(RM_5);
    t
}

pub const UPD_EDIT_1: &'static str = "\n        cd \"";
pub const UPD_EDIT_2: &'static str = "\"\n        \"${EDITOR:-/usr/bin/nvim}\" BUILD\n    ";

/// The command that opens a package's `BUILD` in the editor.
pub open spec fn upd_edit_text_of(dir: Seq<char>) -> Seq<char> {
    UPD_EDIT_1@ + dir + UPD_EDIT_2@
}

/// The command that opens a package's `BUILD` in the editor.
pub fn upd_edit_text(dir: &str) -> (res: String)
    ensures
        res@ == upd_edit_text_of(dir@),
{
    let mut t = String::from_str(UPD_EDIT_1);
    t.append(dir);
    t.append(UPD_EDIT_2);
    t
}

pub const UPD_COMMIT_1: &'static str = "\n        cd \"";
pub const UPD_COMMIT_2: &'static str = "\"\n        source BUILD\n\n        MSG=\"Updated ";
pub const UPD_COMMIT_3: &'static str = ": ";
pub const UPD_COMMIT_4: &'static str = " -> $VERS\"\n\n        git add .\n        TIMESTAMP=$(date -u \"+%Y-%m-%d %H:%M:%S\")\n        COMMIT=$(git commit -qm \"$MSG\" -m \"";
pub const UPD_COMMIT_5: &'static str = "\" && git rev-parse HEAD)\n        \n        if [ -z \"";
pub const UPD_COMMIT_6: &'static str = "\" ]; then\n          echo \"[$COMMIT] [$TIMESTAMP] | $MSG\" >> CHANGELOG\n        else\n          echo \"[$COMMIT] [$TIMESTAMP] | $MSG: ";
pub const UPD_COMMIT_7: &'static str = "\" >> CHANGELOG\n        fi\n\n        git add CHANGELOG\n        git commit -qm \"Logged $COMMIT\"\n\n        echo \"$VERS\"\n    ";

/// The command that commits an updated package, with its description, logs the commit and prints the new version.
pub open spec fn upd_commit_text_of(dir: Seq<char>, name: Seq<char>, old_version: Seq<char>, desc: Seq<char>) -> Seq<char> {
    UPD_COMMIT_1@ + dir + UPD_COMMIT_2@ + name + UPD_COMMIT_3@ + old_version + UPD_COMMIT_4@ + desc + UPD_COMMIT_5@ + desc + UPD_COMMIT_6@ + desc + UPD_COMMIT_7@
}

/// The command that commits an updated package, with its description, logs the commit and prints the new version.
pub fn upd_commit_text(dir: &str, name: &str, old_version: &str, desc: &str) -> (res: String)
    ensures
        res@ == upd_commit_text_of(dir@, name@, old_version@, desc@),
{
    let mut t = String::from_str(UPD_COMMIT_1);
    t.append(dir);
    t.append(UPD_COMMIT_2);
    t.append(name);
    t.append(UPD_COMMIT_3);
    t.append(old_version);
    t.append(UPD_COMMIT_4);
    t.append(desc);
    t.append(UPD_COMMIT_5);
    t.append(desc);
    t.append(UPD_COMMIT_6);
    t.append(desc);
    t.append(UPD_COMMIT_7);
    t
}

pub const VIEW_1: &'static str = "\n        nvim -R \"";
pub const VIEW_2: &'static str = "\"/BUILD\n        ";

/// The command that shows a package's `BUILD` read-only.
pub open spec fn view_text_of(dir: Seq<char>) -> Seq<char> {
    VIEW_1@ + dir + VIEW_2@
}

/// The command that shows a package's `BUILD` read-only.
pub fn view_text(dir: &str) -> (res: String)
    ensures
        res@ == view_text_of(dir@),
{
    let mut t = String::from_str(VIEW_1);
    t.append(dir);
    t.append(VIEW_2);
    t
}

pub const CORE_1: &'static str = "\n    source /usr/share/2/bin/e-core || exit 211\n    ";
pub const CORE_2: &'static str = "\n    ";

/// The script that loads the shell library and then runs `command`.
pub open spec fn core_text_of(command: Seq<char>) -> Seq<char> {
    CORE_1@ + command + CORE_2@
}

/// The script that loads the shell library and then runs `command`.
pub fn core_text(command: &str) -> (res: String)
    ensures
        res@ == core_text_of(command@),
{
    let mut t = String::from_str(CORE_1);
    t.append(command);
    t.append(CORE_2);
    t
}

/// A move's command takes the origin's name out of the origin's
/// repository, whatever the destination: it enters `/var/ports/FROM_REPO`
/// (the line `cd /var/ports/FROM_REPO`) and after that runs
/// `git rm -r "FROM_NAME"`.
pub proof fn lemma_move_untracks_origin(
    from_dir: Seq<char>,
    to_dir: Seq<char>,
    from_repo: Seq<char>,
    from_name: Seq<char>,
    to_repo: Seq<char>,
    to_name: Seq<char>,
)
    ensures
        exists|i: int, j: int|
            i < j && occurs_at(
                move_text_of(from_dir, to_dir, from_repo, from_name, to_repo, to_name),
                "cd /var/ports/"@ + from_repo + seq!['\n'],
                i,
            ) && occurs_at(
                move_text_of(from_dir, to_dir, from_repo, from_name, to_repo, to_name),
                "git rm -r \""@ + from_name + seq!['"'],
                j,
            ),
{
    reveal_strlit("\n        cd /var/ports/");
    reveal_strlit("\n        MSG=\"Moved ");
    reveal_strlit("\"\n\n        git rm -r \"");
    reveal_strlit("\"\n        git commit -qm \"$MSG\"\n\n        cd ");
    reveal_strlit("cd /var/ports/");
    reveal_strlit("git rm -r \"");
    let s = move_text_of(from_dir, to_dir, from_repo, from_name, to_repo, to_name);
    let cd = "cd /var/ports/"@;
    let rm = "git rm -r \""@;
    assert(MOVE_3@.skip(MOVE_3@.len() - cd.len()) =~= cd);
    assert(MOVE_4@.take(1) =~= seq!['\n']);
    assert(MOVE_8@.skip(MOVE_8@.len() - rm.len()) =~= rm);
    assert(MOVE_9@.take(1) =~= seq!['"']);
    let a = MOVE_1@ + from_dir + MOVE_2@ + to_dir + MOVE_3@;
    let b = MOVE_4@ + from_repo + MOVE_5@ + from_name + MOVE_6@ + to_repo + MOVE_7@ + to_name
        + MOVE_8@;
    let c = MOVE_9@ + to_dir + MOVE_10@;
    let e = Seq::<char>::empty();
    assert(a + from_repo + (b + from_name + c) =~= s);
    assert(a.skip(a.len() - cd.len()) =~= MOVE_3@.skip(MOVE_3@.len() - cd.len()));
    assert((b + from_name + c).take(1) =~= MOVE_4@.take(1));
    lemma_occurs_across(a, from_repo, b + from_name + c, cd, seq!['\n']);
    assert(e + (a + from_repo + b) + from_name + c =~= s);
    assert(ends_with_of(a + from_repo + b, rm)) by {
        assert((a + from_repo + b).skip((a + from_repo + b).len() - rm.len()) =~= MOVE_8@.skip(
            MOVE_8@.len() - rm.len(),
        ));
    }
    assert(c.take(1) =~= MOVE_9@.take(1));
    lemma_occurs_across(a + from_repo + b, from_name, c, rm, seq!['"']);
    let i = a.len() - cd.len();
    let j = (a + from_repo + b).len() - rm.len();
    assert(i < j);
    assert(occurs_at(s, cd + from_repo + seq!['\n'], i));
    assert(occurs_at(s, rm + from_name + seq!['"'], j));
}

/// `h + d + q + d + r + d + t` holds `d` quoted after `-m`, tested by
/// `if [ -z "d" ]` and written after `$MSG: `, when the fixed pieces around
/// each `d` are those of a commit command.
proof fn lemma_description_thrice(
    h: Seq<char>,
    d: Seq<char>,
    q: Seq<char>,
    r: Seq<char>,
    t: Seq<char>,
)
    requires
        ends_with_of(h, "-m \""@),
        starts_with_of(q, "\" && git rev-parse HEAD"@),
        ends_with_of(q, "if [ -z \""@),
        starts_with_of(r, "\" ]"@),
        ends_with_of(r, "| $MSG: "@),
        starts_with_of(t, "\" >> CHANGELOG"@),
    ensures
        occurs_at(
            h + d + q + d + r + d + t,
            "-m \""@ + d + "\" && git rev-parse HEAD"@,
            h.len() - "-m \""@.len(),
        ),
        occurs_at(
            h + d + q + d + r + d + t,
            "if [ -z \""@ + d + "\" ]"@,
            h.len() + d.len() + q.len() - "if [ -z \""@.len(),
        ),
        occurs_at(
            h + d + q + d + r + d + t,
            "| $MSG: "@ + d + "\" >> CHANGELOG"@,
            h.len() + d.len() + q.len() + d.len() + r.len() - "| $MSG: "@.len(),
        ),
{
    let s = h + d + q + d + r + d + t;
    let e = Seq::<char>::empty();
    lemma_occurs_across(h, d, q + d + r + d + t, "-m \""@, "\" && git rev-parse HEAD"@);
    assert((q + d + r + d + t).take("\" && git rev-parse HEAD"@.len() as int) =~= q.take(
        "\" && git rev-parse HEAD"@.len() as int,
    ));
    assert(h + d + (q + d + r + d + t) =~= s);
    let hq = h + d + q;
    assert(hq.skip(hq.len() - "if [ -z \""@.len()) =~= q.skip(q.len() - "if [ -z \""@.len()));
    assert((r + d + t).take("\" ]"@.len() as int) =~= r.take("\" ]"@.len() as int));
    lemma_occurs_across(hq, d, r + d + t, "if [ -z \""@, "\" ]"@);
    assert(hq + d + (r + d + t) =~= s);
    let hr = h + d + q + d + r;
    assert(hr.skip(hr.len() - "| $MSG: "@.len()) =~= r.skip(r.len() - "| $MSG: "@.len()));
    lemma_occurs_across(hr, d, t, "| $MSG: "@, "\" >> CHANGELOG"@);
}

/// An update's commit command carries the description it is given: as the
/// commit's message body (`-m "DESC"`), in the test for an empty one
/// (`if [ -z "DESC" ]`), and in the CHANGELOG line (`| $MSG: DESC`).
pub proof fn lemma_update_commit_carries_description(
    dir: Seq<char>,
    name: Seq<char>,
    old_version: Seq<char>,
    desc: Seq<char>,
)
    ensures
        exists|i: int|
            occurs_at(
                upd_commit_text_of(dir, name, old_version, desc),
                "-m \""@ + desc + "\" && git rev-parse HEAD"@,
                i,
            ),
        exists|i: int|
            occurs_at(
                upd_commit_text_of(dir, name, old_version, desc),
                "if [ -z \""@ + desc + "\" ]"@,
                i,
            ),
        exists|i: int|
            occurs_at(
                upd_commit_text_of(dir, name, old_version, desc),
                "| $MSG: "@ + desc + "\" >> CHANGELOG\n"@,
                i,
            ),
{
    reveal_strlit(" -> $VERS\"\n\n        git add .\n        TIMESTAMP=$(date -u \"+%Y-%m-%d %H:%M:%S\")\n        COMMIT=$(git commit -qm \"$MSG\" -m \"");
    reveal_strlit("\" && git rev-parse HEAD)\n        \n        if [ -z \"");
    reveal_strlit("\" ]; then\n          echo \"[$COMMIT] [$TIMESTAMP] | $MSG\" >> CHANGELOG\n        else\n          echo \"[$COMMIT] [$TIMESTAMP] | $MSG: ");
    reveal_strlit("\" >> CHANGELOG\n        fi\n\n        git add CHANGELOG\n        git commit -qm \"Logged $COMMIT\"\n\n        echo \"$VERS\"\n    ");
    reveal_strlit("-m \"");
    reveal_strlit("\" && git rev-parse HEAD");
    reveal_strlit("if [ -z \"");
    reveal_strlit("\" ]");
    reveal_strlit("| $MSG: ");
    reveal_strlit("\" >> CHANGELOG");
    reveal_strlit("\" >> CHANGELOG\n");
    let h = UPD_COMMIT_1@ + dir + UPD_COMMIT_2@ + name + UPD_COMMIT_3@ + old_version + UPD_COMMIT_4@;
    let q = UPD_COMMIT_5@;
    let r = UPD_COMMIT_6@;
    let t = UPD_COMMIT_7@;
    assert(h.skip(h.len() - 4) =~= UPD_COMMIT_4@.skip(UPD_COMMIT_4@.len() - 4));
    assert(UPD_COMMIT_4@.skip(UPD_COMMIT_4@.len() - 4) =~= "-m \""@);
    assert(q.take(23) =~= "\" && git rev-parse HEAD"@);
    assert(q.skip(q.len() - 9) =~= "if [ -z \""@);
    assert(r.take(3) =~= "\" ]"@);
    assert(r.skip(r.len() - 8) =~= "| $MSG: "@);
    assert(t.take(14) =~= "\" >> CHANGELOG"@);
    lemma_description_thrice(h, desc, q, r, t);
    let s = upd_commit_text_of(dir, name, old_version, desc);
    assert(s == h + desc + q + desc + r + desc + t);
    let j = h.len() + desc.len() + q.len() + desc.len() + r.len() - 8;
    assert(occurs_at(s, "| $MSG: "@ + desc + "\" >> CHANGELOG\n"@, j)) by {
        let p = "| $MSG: "@ + desc + "\" >> CHANGELOG"@;
        let p2 = "| $MSG: "@ + desc + "\" >> CHANGELOG\n"@;
        assert(t[14] == '\n');
        assert(p2 =~= p.push('\n'));
        assert(s[j + p.len()] == t[14]);
        assert(s.subrange(j, j + p2.len()) =~= s.subrange(j, j + p.len()).push(s[j + p.len()]));
    }
}


/// A revision's commit command carries the description it is given: as the
/// commit's message body (`-m "DESC"`), in the test for an empty one
/// (`if [ -z "DESC" ]`), and in the CHANGELOG line (`| $MSG: DESC`).
pub proof fn lemma_revision_commit_carries_description(
    dir: Seq<char>,
    name: Seq<char>,
    desc: Seq<char>,
)
    ensures
        exists|i: int|
            occurs_at(
                rev_commit_text_of(dir, name, desc),
                "-m \""@ + desc + "\" && git rev-parse HEAD"@,
                i,
            ),
        exists|i: int|
            occurs_at(
                rev_commit_text_of(dir, name, desc),
                "if [ -z \""@ + desc + "\" ]"@,
                i,
            ),
        exists|i: int|
            occurs_at(
                rev_commit_text_of(dir, name, desc),
                "| $MSG: "@ + desc + "\" >> CHANGELOG\n"@,
                i,
            ),
{
    reveal_strlit("\"\n\n        git add .\n        TIMESTAMP=$(date -u \"+%Y-%m-%d %H:%M:%S\")\n        COMMIT=$(git commit -qm \"$MSG\" -m \"");
    reveal_strlit("\" && git rev-parse HEAD)\n        \n        if [ -z \"");
    reveal_strlit("\" ]; then\n          echo \"[$COMMIT] [$TIMESTAMP] | $MSG\" >> CHANGELOG\n        else\n          echo \"[$COMMIT] [$TIMESTAMP] | $MSG: ");
    reveal_strlit("\" >> CHANGELOG\n        fi\n\n        git add CHANGELOG\n        git commit -qm \"Logged $COMMIT\"\n    ");
    reveal_strlit("-m \"");
    reveal_strlit("\" && git rev-parse HEAD");
    reveal_strlit("if [ -z \"");
    reveal_strlit("\" ]");
    reveal_strlit("| $MSG: ");
    reveal_strlit("\" >> CHANGELOG");
    reveal_strlit("\" >> CHANGELOG\n");
    let h = REV_COMMIT_1@ + dir + REV_COMMIT_2@ + name + REV_COMMIT_3@;
    let q = REV_COMMIT_4@;
    let r = REV_COMMIT_5@;
    let t = REV_COMMIT_6@;
    assert(h.skip(h.len() - 4) =~= REV_COMMIT_3@.skip(REV_COMMIT_3@.len() - 4));
    assert(REV_COMMIT_3@.skip(REV_COMMIT_3@.len() - 4) =~= "-m \""@);
    assert(q.take(23) =~= "\" && git rev-parse HEAD"@);
    assert(q.skip(q.len() - 9) =~= "if [ -z \""@);
    assert(r.take(3) =~= "\" ]"@);
    assert(r.skip(r.len() - 8) =~= "| $MSG: "@);
    assert(t.take(14) =~= "\" >> CHANGELOG"@);
    lemma_description_thrice(h, desc, q, r, t);
    let s = rev_commit_text_of(dir, name, desc);
    assert(s == h + desc + q + desc + r + desc + t);
    let j = h.len() + desc.len() + q.len() + desc.len() + r.len() - 8;
    assert(occurs_at(s, "| $MSG: "@ + desc + "\" >> CHANGELOG\n"@, j)) by {
        let p = "| $MSG: "@ + desc + "\" >> CHANGELOG"@;
        let p2 = "| $MSG: "@ + desc + "\" >> CHANGELOG\n"@;
        assert(t[14] == '\n');
        assert(p2 =~= p.push('\n'));
        assert(s[j + p.len()] == t[14]);
        assert(s.subrange(j, j + p2.len()) =~= s.subrange(j, j + p.len()).push(s[j + p.len()]));
    }
}

/// The command that removes a package holds `cd "/var/ports/REPO"`,
/// `git rm -r "NAME"` and the commit message `Removed NAME=VERS`.
pub proof fn lemma_rm_text_removes(repo: Seq<char>, name: Seq<char>, version: Seq<char>)
    ensures
        exists|i: int|
            occurs_at(
                rm_text_of(repo, name, version),
                "cd \"/var/ports/"@ + repo + "\""@,
                i,
            ),
        exists|i: int|
            occurs_at(
                rm_text_of(repo, name, version),
                "git rm -r \""@ + name + "\""@,
                i,
            ),
        exists|i: int|
            occurs_at(
                rm_text_of(repo, name, version),
                "-qm \"Removed "@ + name + "="@ + version + "\""@,
                i,
            ),
{
    let s = rm_text_of(repo, name, version);
    assert(exists|i: int| occurs_at(s, "cd \"/var/ports/"@ + repo + "\""@, i)) by {
        reveal_strlit("\n        cd \"/var/ports/");
        reveal_strlit("\"\n\n        git rm -r \"");
        reveal_strlit("cd \"/var/ports/");
        reveal_strlit("\"");
        let a = RM_1@;
        let x = repo;
        let c = RM_2@;
        let l = RM_1@ + repo + RM_2@;
        assert(a + x + c =~= l);
        assert(a.skip(a.len() - 15) =~= RM_1@.skip(RM_1@.len() - 15));
        assert(RM_1@.skip(RM_1@.len() - 15) =~= "cd \"/var/ports/"@);
        assert(c.take(1) =~= "\""@);
        lemma_occurs_across(a, x, c, "cd \"/var/ports/"@, "\""@);
        let p = "cd \"/var/ports/"@ + repo + "\""@;
        assert("cd \"/var/ports/"@ + x + "\""@ =~= p);
        let k = a.len() - 15;
        lemma_occurs_extended(l, (name + RM_3@ + name + RM_4@ + version + RM_5@), p, k);
        assert(s =~= l + (name + RM_3@ + name + RM_4@ + version + RM_5@));
        assert(occurs_at(s, p, k));
    }
    assert(exists|i: int| occurs_at(s, "git rm -r \""@ + name + "\""@, i)) by {
        reveal_strlit("\"\n\n        git rm -r \"");
        reveal_strlit("\"\n        git commit -qm \"Removed ");
        reveal_strlit("git rm -r \"");
        reveal_strlit("\"");
        let a = RM_1@ + repo + RM_2@;
        let x = name;
        let c = RM_3@;
        let l = RM_1@ + repo + RM_2@ + name + RM_3@;
        assert(a + x + c =~= l);
        assert(a.skip(a.len() - 11) =~= RM_2@.skip(RM_2@.len() - 11));
        assert(RM_2@.skip(RM_2@.len() - 11) =~= "git rm -r \""@);
        assert(c.take(1) =~= "\""@);
        lemma_occurs_across(a, x, c, "git rm -r \""@, "\""@);
        let p = "git rm -r \""@ + name + "\""@;
        assert("git rm -r \""@ + x + "\""@ =~= p);
        let k = a.len() - 11;
        lemma_occurs_extended(l, (name + RM_4@ + version + RM_5@), p, k);
        assert(s =~= l + (name + RM_4@ + version + RM_5@));
        assert(occurs_at(s, p, k));
    }
    assert(exists|i: int| occurs_at(s, "-qm \"Removed "@ + name + "="@ + version + "\""@, i)) by {
        reveal_strlit("\"\n        git commit -qm \"Removed ");
        reveal_strlit("\"\n    ");
        reveal_strlit("-qm \"Removed ");
        reveal_strlit("\"");
        reveal_strlit("=");
        let a = RM_1@ + repo + RM_2@ + name + RM_3@;
        let x = name + RM_4@ + version;
        let c = RM_5@;
        let l = RM_1@ + repo + RM_2@ + name + RM_3@ + name + RM_4@ + version + RM_5@;
        assert(a + x + c =~= l);
        assert(a.skip(a.len() - 13) =~= RM_3@.skip(RM_3@.len() - 13));
        assert(RM_3@.skip(RM_3@.len() - 13) =~= "-qm \"Removed "@);
        assert(c.take(1) =~= "\""@);
        lemma_occurs_across(a, x, c, "-qm \"Removed "@, "\""@);
        let p = "-qm \"Removed "@ + name + "="@ + version + "\""@;
        assert("-qm \"Removed "@ + x + "\""@ =~= p);
        let k = a.len() - 13;
        assert(occurs_at(s, p, k));
    }
}

/// A new package's `BUILD` holds `NAME="NAME"` and `VERS="VERS"` on lines
/// of their own, one after the other.
pub proof fn lemma_template_text_names(name: Seq<char>, version: Seq<char>)
    ensures
        exists|i: int|
            occurs_at(
                template_text_of(name, version),
                "NAME=\""@ + name + "\"\nVERS=\""@ + version + "\"\n"@,
                i,
            ),
{
    let s = template_text_of(name, version);
    assert(exists|i: int| occurs_at(s, "NAME=\""@ + name + "\"\nVERS=\""@ + version
        + "\"\n"@, i)) by {
        reveal_strlit("NAME=\"");
        reveal_strlit("\"\nDESC=\"\"\nCATG=\"\"\nUPST=\"\"\nDEPS=()\n\nSOURCE=\"\"\nEXTRA=()\n\n2b() {\n\n}");
        reveal_strlit("\"\n");
        reveal_strlit("\"\nVERS=\"");
        let a = TEMPLATE_1@;
        let x = name + TEMPLATE_2@ + version;
        let c = TEMPLATE_3@;
        let l = TEMPLATE_1@ + name + TEMPLATE_2@ + version + TEMPLATE_3@;
        assert(a + x + c =~= l);
        assert(a.skip(a.len() - 6) =~= TEMPLATE_1@.skip(TEMPLATE_1@.len() - 6));
        assert(TEMPLATE_1@.skip(TEMPLATE_1@.len() - 6) =~= "NAME=\""@);
        assert(c.take(2) =~= "\"\n"@);
        lemma_occurs_across(a, x, c, "NAME=\""@, "\"\n"@);
        let p = "NAME=\""@ + name + "\"\nVERS=\""@ + version + "\"\n"@;
        assert("NAME=\""@ + x + "\"\n"@ =~= p);
        let k = a.len() - 6;
        assert(occurs_at(s, p, k));
    }
}

/// The command that starts a new package opens `DIR/BUILD` in the editor.
pub proof fn lemma_add_edit_text_opens(dir: Seq<char>)
    ensures
        exists|i: int|
            occurs_at(
                add_edit_text_of(dir),
                "\"${EDITOR:-/usr/bin/nvim}\" "@ + dir + "/BUILD"@,
                i,
            ),
{
    let s = add_edit_text_of(dir);
    assert(exists|i: int| occurs_at(s, "\"${EDITOR:-/usr/bin/nvim}\" "@ + dir + "/BUILD"@, i)) by {
        reveal_strlit("\n        \"${EDITOR:-/usr/bin/nvim}\" ");
        reveal_strlit("/BUILD\n    ");
        reveal_strlit("\"${EDITOR:-/usr/bin/nvim}\" ");
        reveal_strlit("/BUILD");
        let a = ADD_EDIT_1@;
        let x = dir;
        let c = ADD_EDIT_2@;
        let l = ADD_EDIT_1@ + dir + ADD_EDIT_2@;
        assert(a + x + c =~= l);
        assert(a.skip(a.len() - 27) =~= ADD_EDIT_1@.skip(ADD_EDIT_1@.len() - 27));
        assert(ADD_EDIT_1@.skip(ADD_EDIT_1@.len() - 27) =~= "\"${EDITOR:-/usr/bin/nvim}\" "@);
        assert(c.take(6) =~= "/BUILD"@);
        lemma_occurs_across(a, x, c, "\"${EDITOR:-/usr/bin/nvim}\" "@, "/BUILD"@);
        let p = "\"${EDITOR:-/usr/bin/nvim}\" "@ + dir + "/BUILD"@;
        assert("\"${EDITOR:-/usr/bin/nvim}\" "@ + x + "/BUILD"@ =~= p);
        let k = a.len() - 27;
        assert(occurs_at(s, p, k));
    }
}

/// The command that finishes adding a package holds `cd "DIR"` and the
/// message `Added NAME=VERS`.
pub proof fn lemma_add_finalize_text_commits(dir: Seq<char>, name: Seq<char>, version: Seq<char>)
    ensures
        exists|i: int|
            occurs_at(
                add_finalize_text_of(dir, name, version),
                "cd \""@ + dir + "\""@,
                i,
            ),
        exists|i: int|
            occurs_at(
                add_finalize_text_of(dir, name, version),
                "MSG=\"Added "@ + name + "="@ + version + "\""@,
                i,
            ),
{
    let s = add_finalize_text_of(dir, name, version);
    assert(exists|i: int| occurs_at(s, "cd \""@ + dir + "\""@, i)) by {
        reveal_strlit("\n        cd \"");
        reveal_strlit("\"\n        MSG=\"Added ");
        reveal_strlit("cd \"");
        reveal_strlit("\"");
        let a = ADD_FINALIZE_1@;
        let x = dir;
        let c = ADD_FINALIZE_2@;
        let l = ADD_FINALIZE_1@ + dir + ADD_FINALIZE_2@;
        assert(a + x + c =~= l);
        assert(a.skip(a.len() - 4) =~= ADD_FINALIZE_1@.skip(ADD_FINALIZE_1@.len() - 4));
        assert(ADD_FINALIZE_1@.skip(ADD_FINALIZE_1@.len() - 4) =~= "cd \""@);
        assert(c.take(1) =~= "\""@);
        lemma_occurs_across(a, x, c, "cd \""@, "\""@);
        let p = "cd \""@ + dir + "\""@;
        assert("cd \""@ + x + "\""@ =~= p);
        let k = a.len() - 4;
        lemma_occurs_extended(l, (name + ADD_FINALIZE_3@ + version + ADD_FINALIZE_4@), p, k);
        assert(s =~= l + (name + ADD_FINALIZE_3@ + version + ADD_FINALIZE_4@));
        assert(occurs_at(s, p, k));
    }
    assert(exists|i: int| occurs_at(s, "MSG=\"Added "@ + name + "="@ + version + "\""@, i)) by {
        reveal_strlit("\"\n        MSG=\"Added ");
        reveal_strlit("\"\n\n        git add .\n        TIMESTAMP=$(date -u \"+%Y-%m-%d %H:%M:%S\")\n        COMMIT=$(git commit -qm \"$MSG\" && git rev-parse HEAD)\n\n        echo \"[$COMMIT] [$TIMESTAMP] | $MSG\" >> CHANGELOG\n\n        git add CHANGELOG\n        git commit -qm \"Logged $COMMIT\"\n    ");
        reveal_strlit("MSG=\"Added ");
        reveal_strlit("\"");
        reveal_strlit("=");
        let a = ADD_FINALIZE_1@ + dir + ADD_FINALIZE_2@;
        let x = name + ADD_FINALIZE_3@ + version;
        let c = ADD_FINALIZE_4@;
        let l = ADD_FINALIZE_1@ + dir + ADD_FINALIZE_2@ + name + ADD_FINALIZE_3@ + version
            + ADD_FINALIZE_4@;
        assert(a + x + c =~= l);
        assert(a.skip(a.len() - 11) =~= ADD_FINALIZE_2@.skip(ADD_FINALIZE_2@.len() - 11));
        assert(ADD_FINALIZE_2@.skip(ADD_FINALIZE_2@.len() - 11) =~= "MSG=\"Added "@);
        assert(c.take(1) =~= "\""@);
        lemma_occurs_across(a, x, c, "MSG=\"Added "@, "\""@);
        let p = "MSG=\"Added "@ + name + "="@ + version + "\""@;
        assert("MSG=\"Added "@ + x + "\""@ =~= p);
        let k = a.len() - 11;
        assert(occurs_at(s, p, k));
    }
}

/// The command that aliases a package holds `cd ALIAS_REPO_DIR`, the test
/// `if [[ ALIAS_REPO == ORIGIN_REPO ]]`, the link `ln -sv ORIGIN_NAME ALIAS_NAME`
/// (one repository) and `ln -sv ../ORIGIN_REPO/ORIGIN_NAME ALIAS_NAME` (two),
/// the message `Added alias ALIAS_REPO/ALIAS_NAME for ORIGIN_REPO/ORIGIN_NAME`,
/// `git add ALIAS_NAME`, and the origin's CHANGELOG as where the commit is
/// logged and what is added next.
pub proof fn lemma_alias_text_links(
    alias_repo_dir: Seq<char>,
    alias_repo: Seq<char>,
    origin_repo: Seq<char>,
    origin_name: Seq<char>,
    alias_name: Seq<char>,
    origin_path: Seq<char>,
)
    ensures
        exists|i: int|
            occurs_at(
                alias_text_of(alias_repo_dir, alias_repo, origin_repo, origin_name, alias_name, origin_path),
                "cd "@ + alias_repo_dir + "\n"@,
                i,
            ),
        exists|i: int|
            occurs_at(
                alias_text_of(alias_repo_dir, alias_repo, origin_repo, origin_name, alias_name, origin_path),
                "if [[ "@ + alias_repo + " == "@ + origin_repo + " ]]"@,
                i,
            ),
        exists|i: int|
            occurs_at(
                alias_text_of(alias_repo_dir, alias_repo, origin_repo, origin_name, alias_name, origin_path),
                "ln -sv "@ + origin_name + " "@ + alias_name + "\n"@,
                i,
            ),
        exists|i: int|
            occurs_at(
                alias_text_of(alias_repo_dir, alias_repo, origin_repo, origin_name, alias_name, origin_path),
                "ln -sv ../"@ + origin_repo + "/"@ + origin_name + " "@ + alias_name + "\n"@,
                i,
            ),
        exists|i: int|
            occurs_at(
                alias_text_of(alias_repo_dir, alias_repo, origin_repo, origin_name, alias_name, origin_path),
                "MSG=\"Added alias "@ + alias_repo + "/"@ + alias_name + " for "@ + origin_repo
                    + "/"@ + origin_name + "\""@,
                i,
            ),
        exists|i: int|
            occurs_at(
                alias_text_of(alias_repo_dir, alias_repo, origin_repo, origin_name, alias_name, origin_path),
                "git add "@ + alias_name + "\n"@,
                i,
            ),
        exists|i: int|
            occurs_at(
                alias_text_of(alias_repo_dir, alias_repo, origin_repo, origin_name, alias_name, origin_path),
                ">> "@ + origin_path + "/CHANGELOG"@,
                i,
            ),
        exists|i: int|
            occurs_at(
                alias_text_of(alias_repo_dir, alias_repo, origin_repo, origin_name, alias_name, origin_path),
                "git add "@ + origin_path + "/CHANGELOG"@,
                i,
            ),
{
    lemma_alias_text_links_part_1(
        alias_repo_dir,
        alias_repo,
        origin_repo,
        origin_name,
        alias_name,
        origin_path,
    );
    lemma_alias_text_links_part_2(
        alias_repo_dir,
        alias_repo,
        origin_repo,
        origin_name,
        alias_name,
        origin_path,
    );
    lemma_alias_text_links_part_3(
        alias_repo_dir,
        alias_repo,
        origin_repo,
        origin_name,
        alias_name,
        origin_path,
    );
    lemma_alias_text_links_part_4(
        alias_repo_dir,
        alias_repo,
        origin_repo,
        origin_name,
        alias_name,
        origin_path,
    );
    lemma_alias_text_links_part_5(
        alias_repo_dir,
        alias_repo,
        origin_repo,
        origin_name,
        alias_name,
        origin_path,
    );
    lemma_alias_text_links_part_6(
        alias_repo_dir,
        alias_repo,
        origin_repo,
        origin_name,
        alias_name,
        origin_path,
    );
    lemma_alias_text_links_part_7(
        alias_repo_dir,
        alias_repo,
        origin_repo,
        origin_name,
        alias_name,
        origin_path,
    );
    lemma_alias_text_links_part_8(
        alias_repo_dir,
        alias_repo,
        origin_repo,
        origin_name,
        alias_name,
        origin_path,
    );
}

/// One of the facts of `lemma_alias_text_links`.
proof fn lemma_alias_text_links_part_1(
    alias_repo_dir: Seq<char>,
    alias_repo: Seq<char>,
    origin_repo: Seq<char>,
    origin_name: Seq<char>,
    alias_name: Seq<char>,
    origin_path: Seq<char>,
)
    ensures
        exists|i: int|
            occurs_at(
                alias_text_of(alias_repo_dir, alias_repo, origin_repo, origin_name, alias_name, origin_path),
                "cd "@ + alias_repo_dir + "\n"@,
                i,
            ),
{
    let s = alias_text_of(alias_repo_dir, alias_repo, origin_repo, origin_name, alias_name, origin_path);
    assert(exists|i: int| occurs_at(s, "cd "@ + alias_repo_dir + "\n"@, i)) by {
        reveal_strlit("\n        cd ");
        reveal_strlit("\n\n        if [[ ");
        reveal_strlit("cd ");
        reveal_strlit("\n");
        let a = ALIAS_1@;
        let x = alias_repo_dir;
        let c = ALIAS_2@;
        let l = ALIAS_1@ + alias_repo_dir + ALIAS_2@;
        assert(a + x + c =~= l);
        assert(a.skip(a.len() - 3) =~= ALIAS_1@.skip(ALIAS_1@.len() - 3));
        assert(ALIAS_1@.skip(ALIAS_1@.len() - 3) =~= "cd "@);
        assert(c.take(1) =~= "\n"@);
        lemma_occurs_across(a, x, c, "cd "@, "\n"@);
        let p = "cd "@ + alias_repo_dir + "\n"@;
        assert("cd "@ + x + "\n"@ =~= p);
        let k = a.len() - 3;
        lemma_occurs_extended(l, (alias_repo + ALIAS_3@ + origin_repo + ALIAS_4@ + origin_name
            + ALIAS_5@), p, k);
        let l1 = l + alias_repo + ALIAS_3@ + origin_repo + ALIAS_4@ + origin_name + ALIAS_5@;
        assert(l1 =~= l + (alias_repo + ALIAS_3@ + origin_repo + ALIAS_4@ + origin_name
            + ALIAS_5@));
        lemma_occurs_extended(l1, (alias_name + ALIAS_6@ + origin_repo + ALIAS_7@ + origin_name
            + ALIAS_8@), p, k);
        let l2 = l1 + alias_name + ALIAS_6@ + origin_repo + ALIAS_7@ + origin_name + ALIAS_8@;
        assert(l2 =~= l1 + (alias_name + ALIAS_6@ + origin_repo + ALIAS_7@ + origin_name
            + ALIAS_8@));
        lemma_occurs_extended(l2, (alias_name + ALIAS_9@ + alias_repo + ALIAS_10@ + alias_name
            + ALIAS_11@), p, k);
        let l3 = l2 + alias_name + ALIAS_9@ + alias_repo + ALIAS_10@ + alias_name + ALIAS_11@;
        assert(l3 =~= l2 + (alias_name + ALIAS_9@ + alias_repo + ALIAS_10@ + alias_name
            + ALIAS_11@));
        lemma_occurs_extended(l3, (origin_repo + ALIAS_12@ + origin_name + ALIAS_13@
            + alias_name + ALIAS_14@), p, k);
        let l4 = l3 + origin_repo + ALIAS_12@ + origin_name + ALIAS_13@ + alias_name + ALIAS_14@;
        assert(l4 =~= l3 + (origin_repo + ALIAS_12@ + origin_name + ALIAS_13@ + alias_name
            + ALIAS_14@));
        lemma_occurs_extended(l4, (origin_path + ALIAS_15@ + origin_path + ALIAS_16@), p, k);
        assert(s =~= l4 + (origin_path + ALIAS_15@ + origin_path + ALIAS_16@));
        assert(occurs_at(s, p, k));
    }
}

/// One of the facts of `lemma_alias_text_links`.
proof fn lemma_alias_text_links_part_2(
    alias_repo_dir: Seq<char>,
    alias_repo: Seq<char>,
    origin_repo: Seq<char>,
    origin_name: Seq<char>,
    alias_name: Seq<char>,
    origin_path: Seq<char>,
)
    ensures
        exists|i: int|
            occurs_at(
                alias_text_of(alias_repo_dir, alias_repo, origin_repo, origin_name, alias_name, origin_path),
                "if [[ "@ + alias_repo + " == "@ + origin_repo + " ]]"@,
                i,
            ),
{
    let s = alias_text_of(alias_repo_dir, alias_repo, origin_repo, origin_name, alias_name, origin_path);
    assert(exists|i: int| occurs_at(s, "if [[ "@ + alias_repo + " == "@ + origin_repo
        + " ]]"@, i)) by {
        reveal_strlit("\n\n        if [[ ");
        reveal_strlit(" ]]; then\n            ln -sv ");
        reveal_strlit("if [[ ");
        reveal_strlit(" ]]");
        reveal_strlit(" == ");
        let a = ALIAS_1@ + alias_repo_dir + ALIAS_2@;
        let x = alias_repo + ALIAS_3@ + origin_repo;
        let c = ALIAS_4@;
        let l = ALIAS_1@ + alias_repo_dir + ALIAS_2@ + alias_repo + ALIAS_3@ + origin_repo
            + ALIAS_4@;
        assert(a + x + c =~= l);
        assert(a.skip(a.len() - 6) =~= ALIAS_2@.skip(ALIAS_2@.len() - 6));
        assert(ALIAS_2@.skip(ALIAS_2@.len() - 6) =~= "if [[ "@);
        assert(c.take(3) =~= " ]]"@);
        lemma_occurs_across(a, x, c, "if [[ "@, " ]]"@);
        let p = "if [[ "@ + alias_repo + " == "@ + origin_repo + " ]]"@;
        assert("if [[ "@ + x + " ]]"@ =~= p);
        let k = a.len() - 6;
        lemma_occurs_extended(l, (origin_name + ALIAS_5@ + alias_name + ALIAS_6@ + origin_repo
            + ALIAS_7@), p, k);
        let l1 = l + origin_name + ALIAS_5@ + alias_name + ALIAS_6@ + origin_repo + ALIAS_7@;
        assert(l1 =~= l + (origin_name + ALIAS_5@ + alias_name + ALIAS_6@ + origin_repo
            + ALIAS_7@));
        lemma_occurs_extended(l1, (origin_name + ALIAS_8@ + alias_name + ALIAS_9@ + alias_repo
            + ALIAS_10@), p, k);
        let l2 = l1 + origin_name + ALIAS_8@ + alias_name + ALIAS_9@ + alias_repo + ALIAS_10@;
        assert(l2 =~= l1 + (origin_name + ALIAS_8@ + alias_name + ALIAS_9@ + alias_repo
            + ALIAS_10@));
        lemma_occurs_extended(l2, (alias_name + ALIAS_11@ + origin_repo + ALIAS_12@
            + origin_name + ALIAS_13@), p, k);
        let l3 = l2 + alias_name + ALIAS_11@ + origin_repo + ALIAS_12@ + origin_name + ALIAS_13@;
        assert(l3 =~= l2 + (alias_name + ALIAS_11@ + origin_repo + ALIAS_12@ + origin_name
            + ALIAS_13@));
        lemma_occurs_extended(l3, (alias_name + ALIAS_14@ + origin_path + ALIAS_15@
            + origin_path + ALIAS_16@), p, k);
        assert(s =~= l3 + (alias_name + ALIAS_14@ + origin_path + ALIAS_15@ + origin_path
            + ALIAS_16@));
        assert(occurs_at(s, p, k));
    }
}

/// One of the facts of `lemma_alias_text_links`.
proof fn lemma_alias_text_links_part_3(
    alias_repo_dir: Seq<char>,
    alias_repo: Seq<char>,
    origin_repo: Seq<char>,
    origin_name: Seq<char>,
    alias_name: Seq<char>,
    origin_path: Seq<char>,
)
    ensures
        exists|i: int|
            occurs_at(
                alias_text_of(alias_repo_dir, alias_repo, origin_repo, origin_name, alias_name, origin_path),
                "ln -sv "@ + origin_name + " "@ + alias_name + "\n"@,
                i,
            ),
{
    let s = alias_text_of(alias_repo_dir, alias_repo, origin_repo, origin_name, alias_name, origin_path);
    assert(exists|i: int| occurs_at(s, "ln -sv "@ + origin_name + " "@ + alias_name
        + "\n"@, i)) by {
        reveal_strlit(" ]]; then\n            ln -sv ");
        reveal_strlit("\n        else\n            # note, this is probably ill-advised as it requires the end user to have both repos\n            ln -sv ../");
        reveal_strlit("ln -sv ");
        reveal_strlit("\n");
        reveal_strlit(" ");
        let a = ALIAS_1@ + alias_repo_dir + ALIAS_2@ + alias_repo + ALIAS_3@ + origin_repo
            + ALIAS_4@;
        let x = origin_name + ALIAS_5@ + alias_name;
        let c = ALIAS_6@;
        let l = ALIAS_1@ + alias_repo_dir + ALIAS_2@ + alias_repo + ALIAS_3@ + origin_repo
            + ALIAS_4@ + origin_name + ALIAS_5@ + alias_name + ALIAS_6@;
        assert(a + x + c =~= l);
        assert(a.skip(a.len() - 7) =~= ALIAS_4@.skip(ALIAS_4@.len() - 7));
        assert(ALIAS_4@.skip(ALIAS_4@.len() - 7) =~= "ln -sv "@);
        assert(c.take(1) =~= "\n"@);
        lemma_occurs_across(a, x, c, "ln -sv "@, "\n"@);
        let p = "ln -sv "@ + origin_name + " "@ + alias_name + "\n"@;
        assert("ln -sv "@ + x + "\n"@ =~= p);
        let k = a.len() - 7;
        lemma_occurs_extended(l, (origin_repo + ALIAS_7@ + origin_name + ALIAS_8@ + alias_name
            + ALIAS_9@), p, k);
        let l1 = l + origin_repo + ALIAS_7@ + origin_name + ALIAS_8@ + alias_name + ALIAS_9@;
        assert(l1 =~= l + (origin_repo + ALIAS_7@ + origin_name + ALIAS_8@ + alias_name
            + ALIAS_9@));
        lemma_occurs_extended(l1, (alias_repo + ALIAS_10@ + alias_name + ALIAS_11@ + origin_repo
            + ALIAS_12@), p, k);
        let l2 = l1 + alias_repo + ALIAS_10@ + alias_name + ALIAS_11@ + origin_repo + ALIAS_12@;
        assert(l2 =~= l1 + (alias_repo + ALIAS_10@ + alias_name + ALIAS_11@ + origin_repo
            + ALIAS_12@));
        lemma_occurs_extended(l2, (origin_name + ALIAS_13@ + alias_name + ALIAS_14@
            + origin_path + ALIAS_15@), p, k);
        let l3 = l2 + origin_name + ALIAS_13@ + alias_name + ALIAS_14@ + origin_path + ALIAS_15@;
        assert(l3 =~= l2 + (origin_name + ALIAS_13@ + alias_name + ALIAS_14@ + origin_path
            + ALIAS_15@));
        lemma_occurs_extended(l3, (origin_path + ALIAS_16@), p, k);
        assert(s =~= l3 + (origin_path + ALIAS_16@));
        assert(occurs_at(s, p, k));
    }
}

/// One of the facts of `lemma_alias_text_links`.
proof fn lemma_alias_text_links_part_4(
    alias_repo_dir: Seq<char>,
    alias_repo: Seq<char>,
    origin_repo: Seq<char>,
    origin_name: Seq<char>,
    alias_name: Seq<char>,
    origin_path: Seq<char>,
)
    ensures
        exists|i: int|
            occurs_at(
                alias_text_of(alias_repo_dir, alias_repo, origin_repo, origin_name, alias_name, origin_path),
                "ln -sv ../"@ + origin_repo + "/"@ + origin_name + " "@ + alias_name + "\n"@,
                i,
            ),
{
    let s = alias_text_of(alias_repo_dir, alias_repo, origin_repo, origin_name, alias_name, origin_path);
    assert(exists|i: int| occurs_at(s, "ln -sv ../"@ + origin_repo + "/"@ + origin_name + " "@
        + alias_name + "\n"@, i)) by {
        reveal_strlit("\n        else\n            # note, this is probably ill-advised as it requires the end user to have both repos\n            ln -sv ../");
        reveal_strlit("\n        fi\n\n        MSG=\"Added alias ");
        reveal_strlit("ln -sv ../");
        reveal_strlit("\n");
        reveal_strlit("/");
        reveal_strlit(" ");
        let a = ALIAS_1@ + alias_repo_dir + ALIAS_2@ + alias_repo + ALIAS_3@ + origin_repo
            + ALIAS_4@ + origin_name + ALIAS_5@ + alias_name + ALIAS_6@;
        let x = origin_repo + ALIAS_7@ + origin_name + ALIAS_8@ + alias_name;
        let c = ALIAS_9@;
        let l = ALIAS_1@ + alias_repo_dir + ALIAS_2@ + alias_repo + ALIAS_3@ + origin_repo
            + ALIAS_4@ + origin_name + ALIAS_5@ + alias_name + ALIAS_6@ + origin_repo + ALIAS_7@
            + origin_name + ALIAS_8@ + alias_name + ALIAS_9@;
        assert(a + x + c =~= l);
        assert(a.skip(a.len() - 10) =~= ALIAS_6@.skip(ALIAS_6@.len() - 10));
        assert(ALIAS_6@.skip(ALIAS_6@.len() - 10) =~= "ln -sv ../"@);
        assert(c.take(1) =~= "\n"@);
        lemma_occurs_across(a, x, c, "ln -sv ../"@, "\n"@);
        let p = "ln -sv ../"@ + origin_repo + "/"@ + origin_name + " "@ + alias_name + "\n"@;
        assert("ln -sv ../"@ + x + "\n"@ =~= p);
        let k = a.len() - 10;
        lemma_occurs_extended(l, (alias_repo + ALIAS_10@ + alias_name + ALIAS_11@ + origin_repo
            + ALIAS_12@), p, k);
        let l1 = l + alias_repo + ALIAS_10@ + alias_name + ALIAS_11@ + origin_repo + ALIAS_12@;
        assert(l1 =~= l + (alias_repo + ALIAS_10@ + alias_name + ALIAS_11@ + origin_repo
            + ALIAS_12@));
        lemma_occurs_extended(l1, (origin_name + ALIAS_13@ + alias_name + ALIAS_14@
            + origin_path + ALIAS_15@), p, k);
        let l2 = l1 + origin_name + ALIAS_13@ + alias_name + ALIAS_14@ + origin_path + ALIAS_15@;
        assert(l2 =~= l1 + (origin_name + ALIAS_13@ + alias_name + ALIAS_14@ + origin_path
            + ALIAS_15@));
        lemma_occurs_extended(l2, (origin_path + ALIAS_16@), p, k);
        assert(s =~= l2 + (origin_path + ALIAS_16@));
        assert(occurs_at(s, p, k));
    }
}

/// One of the facts of `lemma_alias_text_links`.
proof fn lemma_alias_text_links_part_5(
    alias_repo_dir: Seq<char>,
    alias_repo: Seq<char>,
    origin_repo: Seq<char>,
    origin_name: Seq<char>,
    alias_name: Seq<char>,
    origin_path: Seq<char>,
)
    ensures
        exists|i: int|
            occurs_at(
                alias_text_of(alias_repo_dir, alias_repo, origin_repo, origin_name, alias_name, origin_path),
                "MSG=\"Added alias "@ + alias_repo + "/"@ + alias_name + " for "@ + origin_repo
                    + "/"@ + origin_name + "\""@,
                i,
            ),
{
    let s = alias_text_of(alias_repo_dir, alias_repo, origin_repo, origin_name, alias_name, origin_path);
    assert(exists|i: int| occurs_at(s, "MSG=\"Added alias "@ + alias_repo + "/"@ + alias_name
        + " for "@ + origin_repo + "/"@ + origin_name + "\""@, i)) by {
        reveal_strlit("\n        fi\n\n        MSG=\"Added alias ");
        reveal_strlit("\"\n\n        git add ");
        reveal_strlit("MSG=\"Added alias ");
        reveal_strlit("\"");
        reveal_strlit("/");
        reveal_strlit(" for ");
        let a = ALIAS_1@ + alias_repo_dir + ALIAS_2@ + alias_repo + ALIAS_3@ + origin_repo
            + ALIAS_4@ + origin_name + ALIAS_5@ + alias_name + ALIAS_6@ + origin_repo + ALIAS_7@
            + origin_name + ALIAS_8@ + alias_name + ALIAS_9@;
        let x = alias_repo + ALIAS_10@ + alias_name + ALIAS_11@ + origin_repo + ALIAS_12@
            + origin_name;
        let c = ALIAS_13@;
        let l = ALIAS_1@ + alias_repo_dir + ALIAS_2@ + alias_repo + ALIAS_3@ + origin_repo
            + ALIAS_4@ + origin_name + ALIAS_5@ + alias_name + ALIAS_6@ + origin_repo + ALIAS_7@
            + origin_name + ALIAS_8@ + alias_name + ALIAS_9@ + alias_repo + ALIAS_10@
            + alias_name + ALIAS_11@ + origin_repo + ALIAS_12@ + origin_name + ALIAS_13@;
        assert(a + x + c =~= l);
        assert(a.skip(a.len() - 17) =~= ALIAS_9@.skip(ALIAS_9@.len() - 17));
        assert(ALIAS_9@.skip(ALIAS_9@.len() - 17) =~= "MSG=\"Added alias "@);
        assert(c.take(1) =~= "\""@);
        lemma_occurs_across(a, x, c, "MSG=\"Added alias "@, "\""@);
        let p = "MSG=\"Added alias "@ + alias_repo + "/"@ + alias_name + " for "@ + origin_repo
            + "/"@ + origin_name + "\""@;
        assert("MSG=\"Added alias "@ + x + "\""@ =~= p);
        let k = a.len() - 17;
        lemma_occurs_extended(l, (alias_name + ALIAS_14@ + origin_path + ALIAS_15@ + origin_path
            + ALIAS_16@), p, k);
        assert(s =~= l + (alias_name + ALIAS_14@ + origin_path + ALIAS_15@ + origin_path
            + ALIAS_16@));
        assert(occurs_at(s, p, k));
    }
}

/// One of the facts of `lemma_alias_text_links`.
proof fn lemma_alias_text_links_part_6(
    alias_repo_dir: Seq<char>,
    alias_repo: Seq<char>,
    origin_repo: Seq<char>,
    origin_name: Seq<char>,
    alias_name: Seq<char>,
    origin_path: Seq<char>,
)
    ensures
        exists|i: int|
            occurs_at(
                alias_text_of(alias_repo_dir, alias_repo, origin_repo, origin_name, alias_name, origin_path),
                "git add "@ + alias_name + "\n"@,
                i,
            ),
{
    let s = alias_text_of(alias_repo_dir, alias_repo, origin_repo, origin_name, alias_name, origin_path);
    assert(exists|i: int| occurs_at(s, "git add "@ + alias_name + "\n"@, i)) by {
        reveal_strlit("\"\n\n        git add ");
        reveal_strlit("\n        git commit -qm \"$MSG\"\n\n        TIMESTAMP=$(date -u \"+%Y-%m-%d %H:%M:%S\")\n        COMMIT=$(git commit -qm \"$MSG\" && git rev-parse HEAD)\n\n        echo \"[$COMMIT] [$TIMESTAMP] | $MSG\" >> ");
        reveal_strlit("git add ");
        reveal_strlit("\n");
        let a = ALIAS_1@ + alias_repo_dir + ALIAS_2@ + alias_repo + ALIAS_3@ + origin_repo
            + ALIAS_4@ + origin_name + ALIAS_5@ + alias_name + ALIAS_6@ + origin_repo + ALIAS_7@
            + origin_name + ALIAS_8@ + alias_name + ALIAS_9@ + alias_repo + ALIAS_10@
            + alias_name + ALIAS_11@ + origin_repo + ALIAS_12@ + origin_name + ALIAS_13@;
        let x = alias_name;
        let c = ALIAS_14@;
        let l = ALIAS_1@ + alias_repo_dir + ALIAS_2@ + alias_repo + ALIAS_3@ + origin_repo
            + ALIAS_4@ + origin_name + ALIAS_5@ + alias_name + ALIAS_6@ + origin_repo + ALIAS_7@
            + origin_name + ALIAS_8@ + alias_name + ALIAS_9@ + alias_repo + ALIAS_10@
            + alias_name + ALIAS_11@ + origin_repo + ALIAS_12@ + origin_name + ALIAS_13@
            + alias_name + ALIAS_14@;
        assert(a + x + c =~= l);
        assert(a.skip(a.len() - 8) =~= ALIAS_13@.skip(ALIAS_13@.len() - 8));
        assert(ALIAS_13@.skip(ALIAS_13@.len() - 8) =~= "git add "@);
        assert(c.take(1) =~= "\n"@);
        lemma_occurs_across(a, x, c, "git add "@, "\n"@);
        let p = "git add "@ + alias_name + "\n"@;
        assert("git add "@ + x + "\n"@ =~= p);
        let k = a.len() - 8;
        lemma_occurs_extended(l, (origin_path + ALIAS_15@ + origin_path + ALIAS_16@), p, k);
        assert(s =~= l + (origin_path + ALIAS_15@ + origin_path + ALIAS_16@));
        assert(occurs_at(s, p, k));
    }
}

/// One of the facts of `lemma_alias_text_links`.
proof fn lemma_alias_text_links_part_7(
    alias_repo_dir: Seq<char>,
    alias_repo: Seq<char>,
    origin_repo: Seq<char>,
    origin_name: Seq<char>,
    alias_name: Seq<char>,
    origin_path: Seq<char>,
)
    ensures
        exists|i: int|
            occurs_at(
                alias_text_of(alias_repo_dir, alias_repo, origin_repo, origin_name, alias_name, origin_path),
                ">> "@ + origin_path + "/CHANGELOG"@,
                i,
            ),
{
    let s = alias_text_of(alias_repo_dir, alias_repo, origin_repo, origin_name, alias_name, origin_path);
    assert(exists|i: int| occurs_at(s, ">> "@ + origin_path + "/CHANGELOG"@, i)) by {
        reveal_strlit("\n        git commit -qm \"$MSG\"\n\n        TIMESTAMP=$(date -u \"+%Y-%m-%d %H:%M:%S\")\n        COMMIT=$(git commit -qm \"$MSG\" && git rev-parse HEAD)\n\n        echo \"[$COMMIT] [$TIMESTAMP] | $MSG\" >> ");
        reveal_strlit("/CHANGELOG\n\n        git add ");
        reveal_strlit(">> ");
        reveal_strlit("/CHANGELOG");
        let a = ALIAS_1@ + alias_repo_dir + ALIAS_2@ + alias_repo + ALIAS_3@ + origin_repo
            + ALIAS_4@ + origin_name + ALIAS_5@ + alias_name + ALIAS_6@ + origin_repo + ALIAS_7@
            + origin_name + ALIAS_8@ + alias_name + ALIAS_9@ + alias_repo + ALIAS_10@
            + alias_name + ALIAS_11@ + origin_repo + ALIAS_12@ + origin_name + ALIAS_13@
            + alias_name + ALIAS_14@;
        let x = origin_path;
        let c = ALIAS_15@;
        let l = ALIAS_1@ + alias_repo_dir + ALIAS_2@ + alias_repo + ALIAS_3@ + origin_repo
            + ALIAS_4@ + origin_name + ALIAS_5@ + alias_name + ALIAS_6@ + origin_repo + ALIAS_7@
            + origin_name + ALIAS_8@ + alias_name + ALIAS_9@ + alias_repo + ALIAS_10@
            + alias_name + ALIAS_11@ + origin_repo + ALIAS_12@ + origin_name + ALIAS_13@
            + alias_name + ALIAS_14@ + origin_path + ALIAS_15@;
        assert(a + x + c =~= l);
        assert(a.skip(a.len() - 3) =~= ALIAS_14@.skip(ALIAS_14@.len() - 3));
        assert(ALIAS_14@.skip(ALIAS_14@.len() - 3) =~= ">> "@);
        assert(c.take(10) =~= "/CHANGELOG"@);
        lemma_occurs_across(a, x, c, ">> "@, "/CHANGELOG"@);
        let p = ">> "@ + origin_path + "/CHANGELOG"@;
        assert(">> "@ + x + "/CHANGELOG"@ =~= p);
        let k = a.len() - 3;
        lemma_occurs_extended(l, (origin_path + ALIAS_16@), p, k);
        assert(s =~= l + (origin_path + ALIAS_16@));
        assert(occurs_at(s, p, k));
    }
}

/// One of the facts of `lemma_alias_text_links`.
proof fn lemma_alias_text_links_part_8(
    alias_repo_dir: Seq<char>,
    alias_repo: Seq<char>,
    origin_repo: Seq<char>,
    origin_name: Seq<char>,
    alias_name: Seq<char>,
    origin_path: Seq<char>,
)
    ensures
        exists|i: int|
            occurs_at(
                alias_text_of(alias_repo_dir, alias_repo, origin_repo, origin_name, alias_name, origin_path),
                "git add "@ + origin_path + "/CHANGELOG"@,
                i,
            ),
{
    let s = alias_text_of(alias_repo_dir, alias_repo, origin_repo, origin_name, alias_name, origin_path);
    assert(exists|i: int| occurs_at(s, "git add "@ + origin_path + "/CHANGELOG"@, i)) by {
        reveal_strlit("/CHANGELOG\n\n        git add ");
        reveal_strlit("/CHANGELOG\n        git commit -qm \"Logged $COMMIT\"\n    ");
        reveal_strlit("git add ");
        reveal_strlit("/CHANGELOG");
        let a = ALIAS_1@ + alias_repo_dir + ALIAS_2@ + alias_repo + ALIAS_3@ + origin_repo
            + ALIAS_4@ + origin_name + ALIAS_5@ + alias_name + ALIAS_6@ + origin_repo + ALIAS_7@
            + origin_name + ALIAS_8@ + alias_name + ALIAS_9@ + alias_repo + ALIAS_10@
            + alias_name + ALIAS_11@ + origin_repo + ALIAS_12@ + origin_name + ALIAS_13@
            + alias_name + ALIAS_14@ + origin_path + ALIAS_15@;
        let x = origin_path;
        let c = ALIAS_16@;
        let l = ALIAS_1@ + alias_repo_dir + ALIAS_2@ + alias_repo + ALIAS_3@ + origin_repo
            + ALIAS_4@ + origin_name + ALIAS_5@ + alias_name + ALIAS_6@ + origin_repo + ALIAS_7@
            + origin_name + ALIAS_8@ + alias_name + ALIAS_9@ + alias_repo + ALIAS_10@
            + alias_name + ALIAS_11@ + origin_repo + ALIAS_12@ + origin_name + ALIAS_13@
            + alias_name + ALIAS_14@ + origin_path + ALIAS_15@ + origin_path + ALIAS_16@;
        assert(a + x + c =~= l);
        assert(a.skip(a.len() - 8) =~= ALIAS_15@.skip(ALIAS_15@.len() - 8));
        assert(ALIAS_15@.skip(ALIAS_15@.len() - 8) =~= "git add "@);
        assert(c.take(10) =~= "/CHANGELOG"@);
        lemma_occurs_across(a, x, c, "git add "@, "/CHANGELOG"@);
        let p = "git add "@ + origin_path + "/CHANGELOG"@;
        assert("git add "@ + x + "/CHANGELOG"@ =~= p);
        let k = a.len() - 8;
        assert(occurs_at(s, p, k));
    }
}

/// The command that copies a package holds `cp -av FROM TO`, `cd TO` and the
/// message `Copied FROM_REPO/FROM_NAME -> TO_REPO/TO_NAME`.
pub proof fn lemma_cp_text_copies(
    from_dir: Seq<char>,
    to_dir: Seq<char>,
    from_repo: Seq<char>,
    from_name: Seq<char>,
    to_repo: Seq<char>,
    to_name: Seq<char>,
)
    ensures
        exists|i: int|
            occurs_at(
                cp_text_of(from_dir, to_dir, from_repo, from_name, to_repo, to_name),
                "cp -av "@ + from_dir + " "@ + to_dir + "\n"@,
                i,
            ),
        exists|i: int|
            occurs_at(
                cp_text_of(from_dir, to_dir, from_repo, from_name, to_repo, to_name),
                "cd "@ + to_dir + "\n"@,
                i,
            ),
        exists|i: int|
            occurs_at(
                cp_text_of(from_dir, to_dir, from_repo, from_name, to_repo, to_name),
                "MSG=\"Copied "@ + from_repo + "/"@ + from_name + " -> "@ + to_repo + "/"@
                    + to_name + "\""@,
                i,
            ),
{
    let s = cp_text_of(from_dir, to_dir, from_repo, from_name, to_repo, to_name);
    assert(exists|i: int| occurs_at(s, "cp -av "@ + from_dir + " "@ + to_dir + "\n"@, i)) by {
        reveal_strlit("\n        cp -av ");
        reveal_strlit("\n        cd ");
        reveal_strlit("cp -av ");
        reveal_strlit("\n");
        reveal_strlit(" ");
        let a = CP_1@;
        let x = from_dir + CP_2@ + to_dir;
        let c = CP_3@;
        let l = CP_1@ + from_dir + CP_2@ + to_dir + CP_3@;
        assert(a + x + c =~= l);
        assert(a.skip(a.len() - 7) =~= CP_1@.skip(CP_1@.len() - 7));
        assert(CP_1@.skip(CP_1@.len() - 7) =~= "cp -av "@);
        assert(c.take(1) =~= "\n"@);
        lemma_occurs_across(a, x, c, "cp -av "@, "\n"@);
        let p = "cp -av "@ + from_dir + " "@ + to_dir + "\n"@;
        assert("cp -av "@ + x + "\n"@ =~= p);
        let k = a.len() - 7;
        lemma_occurs_extended(l, (to_dir + CP_4@ + from_repo + CP_5@ + from_name + CP_6@), p, k);
        let l1 = l + to_dir + CP_4@ + from_repo + CP_5@ + from_name + CP_6@;
        assert(l1 =~= l + (to_dir + CP_4@ + from_repo + CP_5@ + from_name + CP_6@));
        lemma_occurs_extended(l1, (to_repo + CP_7@ + to_name + CP_8@), p, k);
        assert(s =~= l1 + (to_repo + CP_7@ + to_name + CP_8@));
        assert(occurs_at(s, p, k));
    }
    assert(exists|i: int| occurs_at(s, "cd "@ + to_dir + "\n"@, i)) by {
        reveal_strlit("\n        cd ");
        reveal_strlit("\n        MSG=\"Copied ");
        reveal_strlit("cd ");
        reveal_strlit("\n");
        let a = CP_1@ + from_dir + CP_2@ + to_dir + CP_3@;
        let x = to_dir;
        let c = CP_4@;
        let l = CP_1@ + from_dir + CP_2@ + to_dir + CP_3@ + to_dir + CP_4@;
        assert(a + x + c =~= l);
        assert(a.skip(a.len() - 3) =~= CP_3@.skip(CP_3@.len() - 3));
        assert(CP_3@.skip(CP_3@.len() - 3) =~= "cd "@);
        assert(c.take(1) =~= "\n"@);
        lemma_occurs_across(a, x, c, "cd "@, "\n"@);
        let p = "cd "@ + to_dir + "\n"@;
        assert("cd "@ + x + "\n"@ =~= p);
        let k = a.len() - 3;
        lemma_occurs_extended(l, (from_repo + CP_5@ + from_name + CP_6@ + to_repo + CP_7@), p, k);
        let l1 = l + from_repo + CP_5@ + from_name + CP_6@ + to_repo + CP_7@;
        assert(l1 =~= l + (from_repo + CP_5@ + from_name + CP_6@ + to_repo + CP_7@));
        lemma_occurs_extended(l1, (to_name + CP_8@), p, k);
        assert(s =~= l1 + (to_name + CP_8@));
        assert(occurs_at(s, p, k));
    }
    assert(exists|i: int| occurs_at(s, "MSG=\"Copied "@ + from_repo + "/"@ + from_name + " -> "@
        + to_repo + "/"@ + to_name + "\""@, i)) by {
        reveal_strlit("\n        MSG=\"Copied ");
        reveal_strlit("\"\n\n        git add .\n        git commit -qm \"$MSG\"\n\n        TIMESTAMP=$(date -u \"+%Y-%m-%d %H:%M:%S\")\n        COMMIT=$(git commit -qm \"$MSG\" && git rev-parse HEAD)\n\n        # should be first message in changelog, but ill keep >> anyway ¯\\_(ツ)_/¯\n        echo \"[$COMMIT] [$TIMESTAMP] | $MSG\" >> CHANGELOG\n\n        git add CHANGELOG\n        git commit -qm \"Logged $COMMIT\"\n    ");
        reveal_strlit("MSG=\"Copied ");
        reveal_strlit("\"");
        reveal_strlit("/");
        reveal_strlit(" -> ");
        let a = CP_1@ + from_dir + CP_2@ + to_dir + CP_3@ + to_dir + CP_4@;
        let x = from_repo + CP_5@ + from_name + CP_6@ + to_repo + CP_7@ + to_name;
        let c = CP_8@;
        let l = CP_1@ + from_dir + CP_2@ + to_dir + CP_3@ + to_dir + CP_4@ + from_repo + CP_5@
            + from_name + CP_6@ + to_repo + CP_7@ + to_name + CP_8@;
        assert(a + x + c =~= l);
        assert(a.skip(a.len() - 12) =~= CP_4@.skip(CP_4@.len() - 12));
        assert(CP_4@.skip(CP_4@.len() - 12) =~= "MSG=\"Copied "@);
        assert(c.take(1) =~= "\""@);
        lemma_occurs_across(a, x, c, "MSG=\"Copied "@, "\""@);
        let p = "MSG=\"Copied "@ + from_repo + "/"@ + from_name + " -> "@ + to_repo + "/"@
            + to_name + "\""@;
        assert("MSG=\"Copied "@ + x + "\""@ =~= p);
        let k = a.len() - 12;
        assert(occurs_at(s, p, k));
    }
}

/// The command that commits generated files holds `cd "DIR"` and the
/// message `Generated NAME=VERS`.
pub proof fn lemma_gen_text_commits(dir: Seq<char>, name: Seq<char>, version: Seq<char>)
    ensures
        exists|i: int|
            occurs_at(
                gen_text_of(dir, name, version),
                "cd \""@ + dir + "\""@,
                i,
            ),
        exists|i: int|
            occurs_at(
                gen_text_of(dir, name, version),
                "MSG=\"Generated "@ + name + "="@ + version + "\""@,
                i,
            ),
{
    let s = gen_text_of(dir, name, version);
    assert(exists|i: int| occurs_at(s, "cd \""@ + dir + "\""@, i)) by {
        reveal_strlit("\n        set -x\n\n        cd \"");
        reveal_strlit("\"\n        mkdir -pv .{build,data,dist,logs,sources}\n\n        MSG=\"Generated ");
        reveal_strlit("cd \"");
        reveal_strlit("\"");
        let a = GEN_1@;
        let x = dir;
        let c = GEN_2@;
        let l = GEN_1@ + dir + GEN_2@;
        assert(a + x + c =~= l);
        assert(a.skip(a.len() - 4) =~= GEN_1@.skip(GEN_1@.len() - 4));
        assert(GEN_1@.skip(GEN_1@.len() - 4) =~= "cd \""@);
        assert(c.take(1) =~= "\""@);
        lemma_occurs_across(a, x, c, "cd \""@, "\""@);
        let p = "cd \""@ + dir + "\""@;
        assert("cd \""@ + x + "\""@ =~= p);
        let k = a.len() - 4;
        lemma_occurs_extended(l, (name + GEN_3@ + version + GEN_4@), p, k);
        assert(s =~= l + (name + GEN_3@ + version + GEN_4@));
        assert(occurs_at(s, p, k));
    }
    assert(exists|i: int| occurs_at(s, "MSG=\"Generated "@ + name + "="@ + version + "\""@, i)) by {
        reveal_strlit("\"\n        mkdir -pv .{build,data,dist,logs,sources}\n\n        MSG=\"Generated ");
        reveal_strlit("\"\n\n        # Bail if nothing changed\n        [ -z \"$(git status -s .)\" ] && exit 0\n\n        git add info.lock\n        TIMESTAMP=$(date -u \"+%Y-%m-%d %H:%M:%S\")\n        COMMIT=$(git commit -qm \"$MSG\" && git rev-parse HEAD)\n\n        echo \"[$COMMIT] [$TIMESTAMP] | $MSG\" >> CHANGELOG\n\n        git add CHANGELOG\n        git commit -qm \"Logged $COMMIT\"\n    ");
        reveal_strlit("MSG=\"Generated ");
        reveal_strlit("\"");
        reveal_strlit("=");
        let a = GEN_1@ + dir + GEN_2@;
        let x = name + GEN_3@ + version;
        let c = GEN_4@;
        let l = GEN_1@ + dir + GEN_2@ + name + GEN_3@ + version + GEN_4@;
        assert(a + x + c =~= l);
        assert(a.skip(a.len() - 15) =~= GEN_2@.skip(GEN_2@.len() - 15));
        assert(GEN_2@.skip(GEN_2@.len() - 15) =~= "MSG=\"Generated "@);
        assert(c.take(1) =~= "\""@);
        lemma_occurs_across(a, x, c, "MSG=\"Generated "@, "\""@);
        let p = "MSG=\"Generated "@ + name + "="@ + version + "\""@;
        assert("MSG=\"Generated "@ + x + "\""@ =~= p);
        let k = a.len() - 15;
        assert(occurs_at(s, p, k));
    }
}

/// The command that moves a package holds `mv -v FROM TO`, the message
/// `Moved FROM_REPO/FROM_NAME -> TO_REPO/TO_NAME`, and `cd TO` followed by
/// `git add .`.
pub proof fn lemma_move_text_moves(
    from_dir: Seq<char>,
    to_dir: Seq<char>,
    from_repo: Seq<char>,
    from_name: Seq<char>,
    to_repo: Seq<char>,
    to_name: Seq<char>,
)
    ensures
        exists|i: int|
            occurs_at(
                move_text_of(from_dir, to_dir, from_repo, from_name, to_repo, to_name),
                "mv -v "@ + from_dir + " "@ + to_dir + "\n"@,
                i,
            ),
        exists|i: int|
            occurs_at(
                move_text_of(from_dir, to_dir, from_repo, from_name, to_repo, to_name),
                "MSG=\"Moved "@ + from_repo + "/"@ + from_name + " -> "@ + to_repo + "/"@
                    + to_name + "\""@,
                i,
            ),
        exists|i: int|
            occurs_at(
                move_text_of(from_dir, to_dir, from_repo, from_name, to_repo, to_name),
                "cd "@ + to_dir + "\n        git add ."@,
                i,
            ),
{
    let s = move_text_of(from_dir, to_dir, from_repo, from_name, to_repo, to_name);
    assert(exists|i: int| occurs_at(s, "mv -v "@ + from_dir + " "@ + to_dir + "\n"@, i)) by {
        reveal_strlit("\n        mv -v ");
        reveal_strlit("\n        cd /var/ports/");
        reveal_strlit("mv -v ");
        reveal_strlit("\n");
        reveal_strlit(" ");
        let a = MOVE_1@;
        let x = from_dir + MOVE_2@ + to_dir;
        let c = MOVE_3@;
        let l = MOVE_1@ + from_dir + MOVE_2@ + to_dir + MOVE_3@;
        assert(a + x + c =~= l);
        assert(a.skip(a.len() - 6) =~= MOVE_1@.skip(MOVE_1@.len() - 6));
        assert(MOVE_1@.skip(MOVE_1@.len() - 6) =~= "mv -v "@);
        assert(c.take(1) =~= "\n"@);
        lemma_occurs_across(a, x, c, "mv -v "@, "\n"@);
        let p = "mv -v "@ + from_dir + " "@ + to_dir + "\n"@;
        assert("mv -v "@ + x + "\n"@ =~= p);
        let k = a.len() - 6;
        lemma_occurs_extended(l, (from_repo + MOVE_4@ + from_repo + MOVE_5@ + from_name
            + MOVE_6@), p, k);
        let l1 = l + from_repo + MOVE_4@ + from_repo + MOVE_5@ + from_name + MOVE_6@;
        assert(l1 =~= l + (from_repo + MOVE_4@ + from_repo + MOVE_5@ + from_name + MOVE_6@));
        lemma_occurs_extended(l1, (to_repo + MOVE_7@ + to_name + MOVE_8@ + from_name
            + MOVE_9@), p, k);
        let l2 = l1 + to_repo + MOVE_7@ + to_name + MOVE_8@ + from_name + MOVE_9@;
        assert(l2 =~= l1 + (to_repo + MOVE_7@ + to_name + MOVE_8@ + from_name + MOVE_9@));
        lemma_occurs_extended(l2, (to_dir + MOVE_10@), p, k);
        assert(s =~= l2 + (to_dir + MOVE_10@));
        assert(occurs_at(s, p, k));
    }
    assert(exists|i: int| occurs_at(s, "MSG=\"Moved "@ + from_repo + "/"@ + from_name + " -> "@
        + to_repo + "/"@ + to_name + "\""@, i)) by {
        reveal_strlit("\n        MSG=\"Moved ");
        reveal_strlit("\"\n\n        git rm -r \"");
        reveal_strlit("MSG=\"Moved ");
        reveal_strlit("\"");
        reveal_strlit("/");
        reveal_strlit(" -> ");
        let a = MOVE_1@ + from_dir + MOVE_2@ + to_dir + MOVE_3@ + from_repo + MOVE_4@;
        let x = from_repo + MOVE_5@ + from_name + MOVE_6@ + to_repo + MOVE_7@ + to_name;
        let c = MOVE_8@;
        let l = MOVE_1@ + from_dir + MOVE_2@ + to_dir + MOVE_3@ + from_repo + MOVE_4@
            + from_repo + MOVE_5@ + from_name + MOVE_6@ + to_repo + MOVE_7@ + to_name + MOVE_8@;
        assert(a + x + c =~= l);
        assert(a.skip(a.len() - 11) =~= MOVE_4@.skip(MOVE_4@.len() - 11));
        assert(MOVE_4@.skip(MOVE_4@.len() - 11) =~= "MSG=\"Moved "@);
        assert(c.take(1) =~= "\""@);
        lemma_occurs_across(a, x, c, "MSG=\"Moved "@, "\""@);
        let p = "MSG=\"Moved "@ + from_repo + "/"@ + from_name + " -> "@ + to_repo + "/"@
            + to_name + "\""@;
        assert("MSG=\"Moved "@ + x + "\""@ =~= p);
        let k = a.len() - 11;
        lemma_occurs_extended(l, (from_name + MOVE_9@ + to_dir + MOVE_10@), p, k);
        assert(s =~= l + (from_name + MOVE_9@ + to_dir + MOVE_10@));
        assert(occurs_at(s, p, k));
    }
    assert(exists|i: int| occurs_at(s, "cd "@ + to_dir + "\n        git add ."@, i)) by {
        reveal_strlit("\"\n        git commit -qm \"$MSG\"\n\n        cd ");
        reveal_strlit("\n        git add .\n        TIMESTAMP=$(date -u \"+%Y-%m-%d %H:%M:%S\")\n        COMMIT=$(git commit -qm \"$MSG\" && git rev-parse HEAD)\n\n        echo \"[$COMMIT] [$TIMESTAMP] | $MSG\" >> CHANGELOG\n\n        git add CHANGELOG\n        git commit -qm \"Logged $COMMIT\"\n    ");
        reveal_strlit("cd ");
        reveal_strlit("\n        git add .");
        let a = MOVE_1@ + from_dir + MOVE_2@ + to_dir + MOVE_3@ + from_repo + MOVE_4@
            + from_repo + MOVE_5@ + from_name + MOVE_6@ + to_repo + MOVE_7@ + to_name + MOVE_8@
            + from_name + MOVE_9@;
        let x = to_dir;
        let c = MOVE_10@;
        let l = MOVE_1@ + from_dir + MOVE_2@ + to_dir + MOVE_3@ + from_repo + MOVE_4@
            + from_repo + MOVE_5@ + from_name + MOVE_6@ + to_repo + MOVE_7@ + to_name + MOVE_8@
            + from_name + MOVE_9@ + to_dir + MOVE_10@;
        assert(a + x + c =~= l);
        assert(a.skip(a.len() - 3) =~= MOVE_9@.skip(MOVE_9@.len() - 3));
        assert(MOVE_9@.skip(MOVE_9@.len() - 3) =~= "cd "@);
        assert(c.take(18) =~= "\n        git add ."@);
        lemma_occurs_across(a, x, c, "cd "@, "\n        git add ."@);
        let p = "cd "@ + to_dir + "\n        git add ."@;
        assert("cd "@ + x + "\n        git add ."@ =~= p);
        let k = a.len() - 3;
        assert(occurs_at(s, p, k));
    }
}

/// The command that sets up a repository holds `cd DIR`, the README title
/// `# NAME`, and `git remote add origin URL`.
pub proof fn lemma_newrepo_text_sets_up(dir: Seq<char>, repo_name: Seq<char>, url: Seq<char>)
    ensures
        exists|i: int|
            occurs_at(
                newrepo_text_of(dir, repo_name, url),
                "cd "@ + dir + "\n"@,
                i,
            ),
        exists|i: int|
            occurs_at(
                newrepo_text_of(dir, repo_name, url),
                "echo '# "@ + repo_name + "' > README.md"@,
                i,
            ),
        exists|i: int|
            occurs_at(
                newrepo_text_of(dir, repo_name, url),
                "git remote add origin "@ + url + "\n"@,
                i,
            ),
{
    let s = newrepo_text_of(dir, repo_name, url);
    assert(exists|i: int| occurs_at(s, "cd "@ + dir + "\n"@, i)) by {
        reveal_strlit("\n        cd ");
        reveal_strlit("\n        echo '*/.*' > .gitignore\n        echo 'shell=bash' > .shellcheckrc\n        echo 'disable=SC2034' >> .shellcheckrc\n\n        echo '# ");
        reveal_strlit("cd ");
        reveal_strlit("\n");
        let a = NEWREPO_1@;
        let x = dir;
        let c = NEWREPO_2@;
        let l = NEWREPO_1@ + dir + NEWREPO_2@;
        assert(a + x + c =~= l);
        assert(a.skip(a.len() - 3) =~= NEWREPO_1@.skip(NEWREPO_1@.len() - 3));
        assert(NEWREPO_1@.skip(NEWREPO_1@.len() - 3) =~= "cd "@);
        assert(c.take(1) =~= "\n"@);
        lemma_occurs_across(a, x, c, "cd "@, "\n"@);
        let p = "cd "@ + dir + "\n"@;
        assert("cd "@ + x + "\n"@ =~= p);
        let k = a.len() - 3;
        lemma_occurs_extended(l, (repo_name + NEWREPO_3@ + url + NEWREPO_4@), p, k);
        assert(s =~= l + (repo_name + NEWREPO_3@ + url + NEWREPO_4@));
        assert(occurs_at(s, p, k));
    }
    assert(exists|i: int| occurs_at(s, "echo '# "@ + repo_name + "' > README.md"@, i)) by {
        reveal_strlit("\n        echo '*/.*' > .gitignore\n        echo 'shell=bash' > .shellcheckrc\n        echo 'disable=SC2034' >> .shellcheckrc\n\n        echo '# ");
        reveal_strlit("' > README.md\n        curl -fsSL -o LICENSE 'https://www.gnu.org/licenses/gpl-3.0.txt'\n        echo \"Licensing under GPL3 by default. You can change this if you want.\"\n\n        git init\n        git add .\n        git commit -m \"Initial commit\"\n        git branch -M master\n        git remote add origin ");
        reveal_strlit("echo '# ");
        reveal_strlit("' > README.md");
        let a = NEWREPO_1@ + dir + NEWREPO_2@;
        let x = repo_name;
        let c = NEWREPO_3@;
        let l = NEWREPO_1@ + dir + NEWREPO_2@ + repo_name + NEWREPO_3@;
        assert(a + x + c =~= l);
        assert(a.skip(a.len() - 8) =~= NEWREPO_2@.skip(NEWREPO_2@.len() - 8));
        assert(NEWREPO_2@.skip(NEWREPO_2@.len() - 8) =~= "echo '# "@);
        assert(c.take(13) =~= "' > README.md"@);
        lemma_occurs_across(a, x, c, "echo '# "@, "' > README.md"@);
        let p = "echo '# "@ + repo_name + "' > README.md"@;
        assert("echo '# "@ + x + "' > README.md"@ =~= p);
        let k = a.len() - 8;
        lemma_occurs_extended(l, (url + NEWREPO_4@), p, k);
        assert(s =~= l + (url + NEWREPO_4@));
        assert(occurs_at(s, p, k));
    }
    assert(exists|i: int| occurs_at(s, "git remote add origin "@ + url + "\n"@, i)) by {
        reveal_strlit("' > README.md\n        curl -fsSL -o LICENSE 'https://www.gnu.org/licenses/gpl-3.0.txt'\n        echo \"Licensing under GPL3 by default. You can change this if you want.\"\n\n        git init\n        git add .\n        git commit -m \"Initial commit\"\n        git branch -M master\n        git remote add origin ");
        reveal_strlit("\n        git push -u origin master\n        ");
        reveal_strlit("git remote add origin ");
        reveal_strlit("\n");
        let a = NEWREPO_1@ + dir + NEWREPO_2@ + repo_name + NEWREPO_3@;
        let x = url;
        let c = NEWREPO_4@;
        let l = NEWREPO_1@ + dir + NEWREPO_2@ + repo_name + NEWREPO_3@ + url + NEWREPO_4@;
        assert(a + x + c =~= l);
        assert(a.skip(a.len() - 22) =~= NEWREPO_3@.skip(NEWREPO_3@.len() - 22));
        assert(NEWREPO_3@.skip(NEWREPO_3@.len() - 22) =~= "git remote add origin "@);
        assert(c.take(1) =~= "\n"@);
        lemma_occurs_across(a, x, c, "git remote add origin "@, "\n"@);
        let p = "git remote add origin "@ + url + "\n"@;
        assert("git remote add origin "@ + x + "\n"@ =~= p);
        let k = a.len() - 22;
        assert(occurs_at(s, p, k));
    }
}

/// The command that restores a package holds `cd "DIR"`, the restore from
/// `--source=COMMIT` of the files that `git ls-tree -r --name-only COMMIT`
/// lists, and the message `Restored NAME: Back to COMMIT`.
pub proof fn lemma_restore_text_restores(dir: Seq<char>, commit: Seq<char>, name: Seq<char>)
    ensures
        exists|i: int|
            occurs_at(
                restore_text_of(dir, commit, name),
                "cd \""@ + dir + "\""@,
                i,
            ),
        exists|i: int|
            occurs_at(
                restore_text_of(dir, commit, name),
                "--source="@ + commit + " -- "@,
                i,
            ),
        exists|i: int|
            occurs_at(
                restore_text_of(dir, commit, name),
                "git ls-tree -r --name-only "@ + commit + " |"@,
                i,
            ),
        exists|i: int|
            occurs_at(
                restore_text_of(dir, commit, name),
                "MSG=\"Restored "@ + name + ": Back to "@ + commit + "\""@,
                i,
            ),
{
    let s = restore_text_of(dir, commit, name);
    assert(exists|i: int| occurs_at(s, "cd \""@ + dir + "\""@, i)) by {
        reveal_strlit("\n        cd \"");
        reveal_strlit("\"\n\n        git restore --staged --worktree --source=");
        reveal_strlit("cd \"");
        reveal_strlit("\"");
        let a = RESTORE_1@;
        let x = dir;
        let c = RESTORE_2@;
        let l = RESTORE_1@ + dir + RESTORE_2@;
        assert(a + x + c =~= l);
        assert(a.skip(a.len() - 4) =~= RESTORE_1@.skip(RESTORE_1@.len() - 4));
        assert(RESTORE_1@.skip(RESTORE_1@.len() - 4) =~= "cd \""@);
        assert(c.take(1) =~= "\""@);
        lemma_occurs_across(a, x, c, "cd \""@, "\""@);
        let p = "cd \""@ + dir + "\""@;
        assert("cd \""@ + x + "\""@ =~= p);
        let k = a.len() - 4;
        lemma_occurs_extended(l, (commit + RESTORE_3@ + commit + RESTORE_4@ + name
            + RESTORE_5@), p, k);
        let l1 = l + commit + RESTORE_3@ + commit + RESTORE_4@ + name + RESTORE_5@;
        assert(l1 =~= l + (commit + RESTORE_3@ + commit + RESTORE_4@ + name + RESTORE_5@));
        lemma_occurs_extended(l1, (commit + RESTORE_6@), p, k);
        assert(s =~= l1 + (commit + RESTORE_6@));
        assert(occurs_at(s, p, k));
    }
    assert(exists|i: int| occurs_at(s, "--source="@ + commit + " -- "@, i)) by {
        reveal_strlit("\"\n\n        git restore --staged --worktree --source=");
        reveal_strlit(" -- $(git ls-tree -r --name-only ");
        reveal_strlit("--source=");
        reveal_strlit(" -- ");
        let a = RESTORE_1@ + dir + RESTORE_2@;
        let x = commit;
        let c = RESTORE_3@;
        let l = RESTORE_1@ + dir + RESTORE_2@ + commit + RESTORE_3@;
        assert(a + x + c =~= l);
        assert(a.skip(a.len() - 9) =~= RESTORE_2@.skip(RESTORE_2@.len() - 9));
        assert(RESTORE_2@.skip(RESTORE_2@.len() - 9) =~= "--source="@);
        assert(c.take(4) =~= " -- "@);
        lemma_occurs_across(a, x, c, "--source="@, " -- "@);
        let p = "--source="@ + commit + " -- "@;
        assert("--source="@ + x + " -- "@ =~= p);
        let k = a.len() - 9;
        lemma_occurs_extended(l, (commit + RESTORE_4@ + name + RESTORE_5@ + commit
            + RESTORE_6@), p, k);
        assert(s =~= l + (commit + RESTORE_4@ + name + RESTORE_5@ + commit + RESTORE_6@));
        assert(occurs_at(s, p, k));
    }
    assert(exists|i: int| occurs_at(s, "git ls-tree -r --name-only "@ + commit + " |"@, i)) by {
        reveal_strlit(" -- $(git ls-tree -r --name-only ");
        reveal_strlit(" | grep -v CHANGELOG)\n\n        MSG=\"Restored ");
        reveal_strlit("git ls-tree -r --name-only ");
        reveal_strlit(" |");
        let a = RESTORE_1@ + dir + RESTORE_2@ + commit + RESTORE_3@;
        let x = commit;
        let c = RESTORE_4@;
        let l = RESTORE_1@ + dir + RESTORE_2@ + commit + RESTORE_3@ + commit + RESTORE_4@;
        assert(a + x + c =~= l);
        assert(a.skip(a.len() - 27) =~= RESTORE_3@.skip(RESTORE_3@.len() - 27));
        assert(RESTORE_3@.skip(RESTORE_3@.len() - 27) =~= "git ls-tree -r --name-only "@);
        assert(c.take(2) =~= " |"@);
        lemma_occurs_across(a, x, c, "git ls-tree -r --name-only "@, " |"@);
        let p = "git ls-tree -r --name-only "@ + commit + " |"@;
        assert("git ls-tree -r --name-only "@ + x + " |"@ =~= p);
        let k = a.len() - 27;
        lemma_occurs_extended(l, (name + RESTORE_5@ + commit + RESTORE_6@), p, k);
        assert(s =~= l + (name + RESTORE_5@ + commit + RESTORE_6@));
        assert(occurs_at(s, p, k));
    }
    assert(exists|i: int| occurs_at(s, "MSG=\"Restored "@ + name + ": Back to "@ + commit
        + "\""@, i)) by {
        reveal_strlit(" | grep -v CHANGELOG)\n\n        MSG=\"Restored ");
        reveal_strlit("\"\n\n        git add .\n        TIMESTAMP=$(date -u \"+%Y-%m-%d %H:%M:%S\")\n        COMMIT=$(git commit -qm \"$MSG\" && git rev-parse HEAD)\n        \n        echo \"[$COMMIT] [$TIMESTAMP] | $MSG\" >> CHANGELOG\n\n        git add CHANGELOG\n        git commit -qm \"Logged $COMMIT\"\n    ");
        reveal_strlit("MSG=\"Restored ");
        reveal_strlit("\"");
        reveal_strlit(": Back to ");
        let a = RESTORE_1@ + dir + RESTORE_2@ + commit + RESTORE_3@ + commit + RESTORE_4@;
        let x = name + RESTORE_5@ + commit;
        let c = RESTORE_6@;
        let l = RESTORE_1@ + dir + RESTORE_2@ + commit + RESTORE_3@ + commit + RESTORE_4@ + name
            + RESTORE_5@ + commit + RESTORE_6@;
        assert(a + x + c =~= l);
        assert(a.skip(a.len() - 14) =~= RESTORE_4@.skip(RESTORE_4@.len() - 14));
        assert(RESTORE_4@.skip(RESTORE_4@.len() - 14) =~= "MSG=\"Restored "@);
        assert(c.take(1) =~= "\""@);
        lemma_occurs_across(a, x, c, "MSG=\"Restored "@, "\""@);
        let p = "MSG=\"Restored "@ + name + ": Back to "@ + commit + "\""@;
        assert("MSG=\"Restored "@ + x + "\""@ =~= p);
        let k = a.len() - 14;
        assert(occurs_at(s, p, k));
    }
}

/// The command that opens a package for revision holds `cd "DIR"`.
pub proof fn lemma_rev_edit_text_enters(dir: Seq<char>)
    ensures
        exists|i: int|
            occurs_at(
                rev_edit_text_of(dir),
                "cd \""@ + dir + "\""@,
                i,
            ),
{
    let s = rev_edit_text_of(dir);
    assert(exists|i: int| occurs_at(s, "cd \""@ + dir + "\""@, i)) by {
        reveal_strlit("\n        cd \"");
        reveal_strlit("\"\n        mkdir -p /tmp/2/m-diffs\n        \n        source BUILD\n        declare -p > /tmp/2/m-diffs/pre\n\n        \"${EDITOR:-/usr/bin/nvim}\" BUILD\n        # unset in case any of these are deleted\n        unset NAME VERS SOURCE UPST VCMD EXTRA DESC DEPS\n\n        source BUILD\n        declare -p > /tmp/2/m-diffs/post\n\n        diff /tmp/2/m-diffs/p{re,ost} > /tmp/2/m-diffs/diffs\n\n        if grep -E 'NAME|VERS' /tmp/2/m-diffs/diffs; then\n            echo -e \"\\x1b[31;1mBad maintainer!!\\nYou do not change \\$NAME or \\$VERS when revising packages.\\nUse the correct flags if you want to move or update a package.\\x1b[0m\"\n            exit 2 # bad usage\n        fi\n    ");
        reveal_strlit("cd \"");
        reveal_strlit("\"");
        let a = REV_EDIT_1@;
        let x = dir;
        let c = REV_EDIT_2@;
        let l = REV_EDIT_1@ + dir + REV_EDIT_2@;
        assert(a + x + c =~= l);
        assert(a.skip(a.len() - 4) =~= REV_EDIT_1@.skip(REV_EDIT_1@.len() - 4));
        assert(REV_EDIT_1@.skip(REV_EDIT_1@.len() - 4) =~= "cd \""@);
        assert(c.take(1) =~= "\""@);
        lemma_occurs_across(a, x, c, "cd \""@, "\""@);
        let p = "cd \""@ + dir + "\""@;
        assert("cd \""@ + x + "\""@ =~= p);
        let k = a.len() - 4;
        assert(occurs_at(s, p, k));
    }
}

/// The command that commits a revision holds `cd "DIR"` and the message
/// `Revised NAME`.
pub proof fn lemma_rev_commit_text_commits(dir: Seq<char>, name: Seq<char>, desc: Seq<char>)
    ensures
        exists|i: int|
            occurs_at(
                rev_commit_text_of(dir, name, desc),
                "cd \""@ + dir + "\""@,
                i,
            ),
        exists|i: int|
            occurs_at(
                rev_commit_text_of(dir, name, desc),
                "MSG=\"Revised "@ + name + "\""@,
                i,
            ),
{
    let s = rev_commit_text_of(dir, name, desc);
    assert(exists|i: int| occurs_at(s, "cd \""@ + dir + "\""@, i)) by {
        reveal_strlit("\n        cd \"");
        reveal_strlit("\"\n        [ -z \"$(git status -s)\" ] && exit 0 # don't log when nothing changed\n\n        MSG=\"Revised ");
        reveal_strlit("cd \"");
        reveal_strlit("\"");
        let a = REV_COMMIT_1@;
        let x = dir;
        let c = REV_COMMIT_2@;
        let l = REV_COMMIT_1@ + dir + REV_COMMIT_2@;
        assert(a + x + c =~= l);
        assert(a.skip(a.len() - 4) =~= REV_COMMIT_1@.skip(REV_COMMIT_1@.len() - 4));
        assert(REV_COMMIT_1@.skip(REV_COMMIT_1@.len() - 4) =~= "cd \""@);
        assert(c.take(1) =~= "\""@);
        lemma_occurs_across(a, x, c, "cd \""@, "\""@);
        let p = "cd \""@ + dir + "\""@;
        assert("cd \""@ + x + "\""@ =~= p);
        let k = a.len() - 4;
        lemma_occurs_extended(l, (name + REV_COMMIT_3@ + desc + REV_COMMIT_4@ + desc
            + REV_COMMIT_5@), p, k);
        let l1 = l + name + REV_COMMIT_3@ + desc + REV_COMMIT_4@ + desc + REV_COMMIT_5@;
        assert(l1 =~= l + (name + REV_COMMIT_3@ + desc + REV_COMMIT_4@ + desc + REV_COMMIT_5@));
        lemma_occurs_extended(l1, (desc + REV_COMMIT_6@), p, k);
        assert(s =~= l1 + (desc + REV_COMMIT_6@));
        assert(occurs_at(s, p, k));
    }
    assert(exists|i: int| occurs_at(s, "MSG=\"Revised "@ + name + "\""@, i)) by {
        reveal_strlit("\"\n        [ -z \"$(git status -s)\" ] && exit 0 # don't log when nothing changed\n\n        MSG=\"Revised ");
        reveal_strlit("\"\n\n        git add .\n        TIMESTAMP=$(date -u \"+%Y-%m-%d %H:%M:%S\")\n        COMMIT=$(git commit -qm \"$MSG\" -m \"");
        reveal_strlit("MSG=\"Revised ");
        reveal_strlit("\"");
        let a = REV_COMMIT_1@ + dir + REV_COMMIT_2@;
        let x = name;
        let c = REV_COMMIT_3@;
        let l = REV_COMMIT_1@ + dir + REV_COMMIT_2@ + name + REV_COMMIT_3@;
        assert(a + x + c =~= l);
        assert(a.skip(a.len() - 13) =~= REV_COMMIT_2@.skip(REV_COMMIT_2@.len() - 13));
        assert(REV_COMMIT_2@.skip(REV_COMMIT_2@.len() - 13) =~= "MSG=\"Revised "@);
        assert(c.take(1) =~= "\""@);
        lemma_occurs_across(a, x, c, "MSG=\"Revised "@, "\""@);
        let p = "MSG=\"Revised "@ + name + "\""@;
        assert("MSG=\"Revised "@ + x + "\""@ =~= p);
        let k = a.len() - 13;
        lemma_occurs_extended(l, (desc + REV_COMMIT_4@ + desc + REV_COMMIT_5@ + desc
            + REV_COMMIT_6@), p, k);
        assert(s =~= l + (desc + REV_COMMIT_4@ + desc + REV_COMMIT_5@ + desc + REV_COMMIT_6@));
        assert(occurs_at(s, p, k));
    }
}

/// The command that opens a package for update holds `cd "DIR"`.
pub proof fn lemma_upd_edit_text_opens(dir: Seq<char>)
    ensures
        exists|i: int|
            occurs_at(
                upd_edit_text_of(dir),
                "cd \""@ + dir + "\""@,
                i,
            ),
{
    let s = upd_edit_text_of(dir);
    assert(exists|i: int| occurs_at(s, "cd \""@ + dir + "\""@, i)) by {
        reveal_strlit("\n        cd \"");
        reveal_strlit("\"\n        \"${EDITOR:-/usr/bin/nvim}\" BUILD\n    ");
        reveal_strlit("cd \"");
        reveal_strlit("\"");
        let a = UPD_EDIT_1@;
        let x = dir;
        let c = UPD_EDIT_2@;
        let l = UPD_EDIT_1@ + dir + UPD_EDIT_2@;
        assert(a + x + c =~= l);
        assert(a.skip(a.len() - 4) =~= UPD_EDIT_1@.skip(UPD_EDIT_1@.len() - 4));
        assert(UPD_EDIT_1@.skip(UPD_EDIT_1@.len() - 4) =~= "cd \""@);
        assert(c.take(1) =~= "\""@);
        lemma_occurs_across(a, x, c, "cd \""@, "\""@);
        let p = "cd \""@ + dir + "\""@;
        assert("cd \""@ + x + "\""@ =~= p);
        let k = a.len() - 4;
        assert(occurs_at(s, p, k));
    }
}

/// The command that commits an update holds `cd "DIR"` and the message
/// `Updated NAME: OLD -> $VERS`.
pub proof fn lemma_upd_commit_text_commits(
    dir: Seq<char>,
    name: Seq<char>,
    old_version: Seq<char>,
    desc: Seq<char>,
)
    ensures
        exists|i: int|
            occurs_at(
                upd_commit_text_of(dir, name, old_version, desc),
                "cd \""@ + dir + "\""@,
                i,
            ),
        exists|i: int|
            occurs_at(
                upd_commit_text_of(dir, name, old_version, desc),
                "MSG=\"Updated "@ + name + ": "@ + old_version + " -> $VERS\""@,
                i,
            ),
{
    let s = upd_commit_text_of(dir, name, old_version, desc);
    assert(exists|i: int| occurs_at(s, "cd \""@ + dir + "\""@, i)) by {
        reveal_strlit("\n        cd \"");
        reveal_strlit("\"\n        source BUILD\n\n        MSG=\"Updated ");
        reveal_strlit("cd \"");
        reveal_strlit("\"");
        let a = UPD_COMMIT_1@;
        let x = dir;
        let c = UPD_COMMIT_2@;
        let l = UPD_COMMIT_1@ + dir + UPD_COMMIT_2@;
        assert(a + x + c =~= l);
        assert(a.skip(a.len() - 4) =~= UPD_COMMIT_1@.skip(UPD_COMMIT_1@.len() - 4));
        assert(UPD_COMMIT_1@.skip(UPD_COMMIT_1@.len() - 4) =~= "cd \""@);
        assert(c.take(1) =~= "\""@);
        lemma_occurs_across(a, x, c, "cd \""@, "\""@);
        let p = "cd \""@ + dir + "\""@;
        assert("cd \""@ + x + "\""@ =~= p);
        let k = a.len() - 4;
        lemma_occurs_extended(l, (name + UPD_COMMIT_3@ + old_version + UPD_COMMIT_4@ + desc
            + UPD_COMMIT_5@), p, k);
        let l1 = l + name + UPD_COMMIT_3@ + old_version + UPD_COMMIT_4@ + desc + UPD_COMMIT_5@;
        assert(l1 =~= l + (name + UPD_COMMIT_3@ + old_version + UPD_COMMIT_4@ + desc
            + UPD_COMMIT_5@));
        lemma_occurs_extended(l1, (desc + UPD_COMMIT_6@ + desc + UPD_COMMIT_7@), p, k);
        assert(s =~= l1 + (desc + UPD_COMMIT_6@ + desc + UPD_COMMIT_7@));
        assert(occurs_at(s, p, k));
    }
    assert(exists|i: int| occurs_at(s, "MSG=\"Updated "@ + name + ": "@ + old_version
        + " -> $VERS\""@, i)) by {
        reveal_strlit("\"\n        source BUILD\n\n        MSG=\"Updated ");
        reveal_strlit(" -> $VERS\"\n\n        git add .\n        TIMESTAMP=$(date -u \"+%Y-%m-%d %H:%M:%S\")\n        COMMIT=$(git commit -qm \"$MSG\" -m \"");
        reveal_strlit("MSG=\"Updated ");
        reveal_strlit(" -> $VERS\"");
        reveal_strlit(": ");
        let a = UPD_COMMIT_1@ + dir + UPD_COMMIT_2@;
        let x = name + UPD_COMMIT_3@ + old_version;
        let c = UPD_COMMIT_4@;
        let l = UPD_COMMIT_1@ + dir + UPD_COMMIT_2@ + name + UPD_COMMIT_3@ + old_version
            + UPD_COMMIT_4@;
        assert(a + x + c =~= l);
        assert(a.skip(a.len() - 13) =~= UPD_COMMIT_2@.skip(UPD_COMMIT_2@.len() - 13));
        assert(UPD_COMMIT_2@.skip(UPD_COMMIT_2@.len() - 13) =~= "MSG=\"Updated "@);
        assert(c.take(10) =~= " -> $VERS\""@);
        lemma_occurs_across(a, x, c, "MSG=\"Updated "@, " -> $VERS\""@);
        let p = "MSG=\"Updated "@ + name + ": "@ + old_version + " -> $VERS\""@;
        assert("MSG=\"Updated "@ + x + " -> $VERS\""@ =~= p);
        let k = a.len() - 13;
        lemma_occurs_extended(l, (desc + UPD_COMMIT_5@ + desc + UPD_COMMIT_6@ + desc
            + UPD_COMMIT_7@), p, k);
        assert(s =~= l + (desc + UPD_COMMIT_5@ + desc + UPD_COMMIT_6@ + desc + UPD_COMMIT_7@));
        assert(occurs_at(s, p, k));
    }
}

/// The command that views a package opens `DIR/BUILD` read-only.
pub proof fn lemma_view_text_opens(dir: Seq<char>)
    ensures
        exists|i: int|
            occurs_at(
                view_text_of(dir),
                "nvim -R \""@ + dir + "\"/BUILD"@,
                i,
            ),
{
    let s = view_text_of(dir);
    assert(exists|i: int| occurs_at(s, "nvim -R \""@ + dir + "\"/BUILD"@, i)) by {
        reveal_strlit("\n        nvim -R \"");
        reveal_strlit("\"/BUILD\n        ");
        reveal_strlit("nvim -R \"");
        reveal_strlit("\"/BUILD");
        let a = VIEW_1@;
        let x = dir;
        let c = VIEW_2@;
        let l = VIEW_1@ + dir + VIEW_2@;
        assert(a + x + c =~= l);
        assert(a.skip(a.len() - 9) =~= VIEW_1@.skip(VIEW_1@.len() - 9));
        assert(VIEW_1@.skip(VIEW_1@.len() - 9) =~= "nvim -R \""@);
        assert(c.take(7) =~= "\"/BUILD"@);
        lemma_occurs_across(a, x, c, "nvim -R \""@, "\"/BUILD"@);
        let p = "nvim -R \""@ + dir + "\"/BUILD"@;
        assert("nvim -R \""@ + x + "\"/BUILD"@ =~= p);
        let k = a.len() - 9;
        assert(occurs_at(s, p, k));
    }
}

/// The script loads the shell library and then runs the command on a line
/// of its own.
pub proof fn lemma_core_text_runs(command: Seq<char>)
    ensures
        exists|i: int|
            occurs_at(
                core_text_of(command),
                "source /usr/share/2/bin/e-core || exit 211\n    "@ + command + "\n"@,
                i,
            ),
{
    let s = core_text_of(command);
    assert(exists|i: int| occurs_at(s, "source /usr/share/2/bin/e-core || exit 211\n    "@
        + command + "\n"@, i)) by {
        reveal_strlit("\n    source /usr/share/2/bin/e-core || exit 211\n    ");
        reveal_strlit("\n    ");
        reveal_strlit("source /usr/share/2/bin/e-core || exit 211\n    ");
        reveal_strlit("\n");
        let a = CORE_1@;
        let x = command;
        let c = CORE_2@;
        let l = CORE_1@ + command + CORE_2@;
        assert(a + x + c =~= l);
        assert(a.skip(a.len() - 47) =~= CORE_1@.skip(CORE_1@.len() - 47));
        assert(CORE_1@.skip(CORE_1@.len() - 47) =~= "source /usr/share/2/bin/e-core || exit 211\n    "@);
        assert(c.take(1) =~= "\n"@);
        lemma_occurs_across(a, x, c, "source /usr/share/2/bin/e-core || exit 211\n    "@, "\n"@);
        let p = "source /usr/share/2/bin/e-core || exit 211\n    "@ + command + "\n"@;
        assert("source /usr/share/2/bin/e-core || exit 211\n    "@ + x + "\n"@ =~= p);
        let k = a.len() - 47;
        assert(occurs_at(s, p, k));
    }
}

} // verus!
