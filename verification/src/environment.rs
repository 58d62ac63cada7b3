//! Environments: manifests that describe them, their differences, and partial application.
use vstd::prelude::*;

use crate::config::{
    is_safe_executable, is_toolchain_key, is_variable_name, regular_file_problem,
    relative_path_problem, supported_toolchain_key, valid_environment_variable_name,
    valid_toolchain_executable, validate_regular_project_file, validate_relative_path, Config,
    VariantFiles,
};
use crate::config::{listed_before, or_else, seen_before};
use crate::model::{
    ControlledEnvironment, ControlledEnvironmentView, EnvironmentDeltaRecord,
    EnvironmentDeltaRecordView, SourceCopyOrder,
};
use crate::numbers::{all_digits, decimal, decimal_of, digits_of, padded_digits};
use crate::numbers::{read_number, signed_decimal, value_of, without_plus, zero_padded};
use crate::ordering::{before, is_rooted, is_same_path, key_of, pieces, same_path, split, Order};
use crate::ordering::{lemma_before_irreflexive, lemma_before_transitive, lemma_text_key_injective};
use crate::string_map::{has_key, increasing, value_at, with_entry, without_entry, Entries};
use crate::string_map::{lemma_found, lemma_place, lemma_same_values, place_of};
use crate::string_map::{lemma_with_entry, lemma_without_entry, PathMap, StringMap};
use crate::text::{ascii_alphanumeric, begins_with, blank, chars_of, concat, concat3};
use crate::text::{contains_char, debug_text, has_char, is_alphanumeric, is_blank, quoted, same};
use crate::text::{same_option, strip_prefix};
use vstd::utf8::encode_utf8;

verus! {

/// Settings that differ from the baseline environment. What is absent is left as it is.
#[derive(Debug, PartialEq)]
pub struct EnvironmentManifest {
    pub image: Option<String>,
    pub source_path: Option<String>,
    pub build_path: Option<String>,
    pub source_copy_order: Option<SourceCopyOrder>,
    pub source_date_epoch: Option<i64>,
    pub source_mtime_epoch: Option<i64>,
    pub timezone: Option<String>,
    pub locale: Option<String>,
    pub hostname: Option<String>,
    pub cpu_count: Option<u32>,
    /// Octal file creation mask, for example "022" or "0o077".
    pub umask: Option<String>,
    /// Either "default" or "none", so that a comparison cannot silently attach builds to an
    /// arbitrary host or container network.
    pub network_mode: Option<String>,
    pub variables: StringMap,
    pub unset_variables: Vec<String>,
    pub toolchain: StringMap,
    pub unset_toolchain: Vec<String>,
    /// Project-relative target to project-relative variant file.
    pub dependency_overrides: PathMap,
}

/// A manifest together with the digest of the bytes it was read from.
#[derive(Debug, PartialEq)]
pub struct LoadedEnvironmentManifest {
    pub manifest: EnvironmentManifest,
    pub sha256: String,
}

pub open spec fn copy_order_name(value: SourceCopyOrder) -> Seq<char> {
    match value {
        SourceCopyOrder::Sorted => "sorted"@,
        SourceCopyOrder::Reverse => "reverse"@,
    }
}

pub fn source_copy_order_name(value: SourceCopyOrder) -> (r: &'static str)
    ensures
        r@ == copy_order_name(value),
{
    match value {
        SourceCopyOrder::Sorted => "sorted",
        SourceCopyOrder::Reverse => "reverse",
    }
}

pub open spec fn container_path_problem(field: Seq<char>, value: Seq<char>) -> Option<Seq<char>> {
    if !is_rooted(value) || has_char(value, ',') || has_char(value, '\0') {
        Some(field + " must be an absolute container path without commas or NUL bytes"@)
    } else {
        None
    }
}

pub fn validate_container_path(field: &str, value: &str) -> (r: Result<(), String>)
    ensures
        match r {
            Ok(()) => container_path_problem(field@, value@) is None,
            Err(m) => container_path_problem(field@, value@) == Some(m@),
        },
{
    let chars = chars_of(value);
    if chars.len() == 0 || chars[0] != '/' || contains_char(value, ',') || contains_char(
        value,
        '\0',
    ) {
        return Err(
            concat(field, " must be an absolute container path without commas or NUL bytes"),
        );
    }
    Ok(())
}

/// The digits of an octal mask, without its optional `0o`.
pub open spec fn umask_digits(value: Seq<char>) -> Seq<char> {
    if begins_with(value, "0o"@) {
        value.skip(2)
    } else {
        value
    }
}

/// What an octal mask stands for, or why it stands for nothing.
pub open spec fn umask_value(value: Seq<char>) -> Result<u32, Seq<char>> {
    let digits = umask_digits(value);
    if digits.len() == 0 || !all_octal(digits) {
        Err("umask must be an octal string such as \"022\" or \"0o077\""@)
    } else if value_of(digits, 8) > u32::MAX {
        Err("cannot parse umask: number too large to fit in target type"@)
    } else if value_of(digits, 8) > 511 {
        Err("umask must be between 000 and 777"@)
    } else {
        Ok(value_of(digits, 8) as u32)
    }
}

pub open spec fn all_octal(s: Seq<char>) -> bool {
    forall|i: int| 0 <= i < s.len() ==> '0' <= #[trigger] s[i] <= '7'
}

pub fn parse_umask(value: &str) -> (r: Result<u32, String>)
    ensures
        crate::text::outcome(r) == umask_value(value@),
{
    proof {
        reveal_strlit("0o");
    }
    let digits = match strip_prefix(value, "0o") {
        Some(rest) => rest,
        None => value.to_owned(),
    };
    assert(digits@ == umask_digits(value@));
    let chars = chars_of(digits.as_str());
    let mut octal = chars.len() > 0;
    let mut i: usize = 0;
    while i < chars.len()
        invariant
            chars@ == digits@,
            i <= chars@.len(),
            octal == (chars@.len() > 0 && forall|k: int| 0 <= k < i ==> '0' <= #[trigger] digits@[k] <= '7'),
        decreases chars.len() - i,
    {
        if !('0' <= chars[i] && chars[i] <= '7') {
            assert(!('0' <= digits@[i as int] <= '7'));
            octal = false;
        }
        i += 1;
    }
    if !octal {
        return Err("umask must be an octal string such as \"022\" or \"0o077\"".to_owned());
    }
    assert(without_plus(digits@) == digits@);
    assert(all_digits(digits@, 8)) by {
        assert forall|k: int| 0 <= k < digits@.len() implies crate::numbers::digit_value(
            #[trigger] digits@[k],
            8,
        ) is Some by {
            assert('0' <= digits@[k] <= '7');
        }
    }
    match read_number(digits.as_str(), 8, 0xffff_ffff) {
        None => Err("cannot parse umask: number too large to fit in target type".to_owned()),
        Some(n) => {
            if n > 511 {
                Err("umask must be between 000 and 777".to_owned())
            } else {
                Ok(n as u32)
            }
        },
    }
}

/// Whether a host name label has an accepted length and characters.
pub open spec fn is_host_label(s: Seq<char>) -> bool {
    &&& s.len() > 0
    &&& encode_utf8(s).len() <= 63
    &&& s[0] != '-'
    &&& s.last() != '-'
    &&& forall|i: int| 0 <= i < s.len() ==> is_alphanumeric(#[trigger] s[i]) || s[i] == '-'
}

pub open spec fn is_hostname(s: Seq<char>) -> bool {
    &&& s.len() > 0
    &&& encode_utf8(s).len() <= 253
    &&& forall|i: int| 0 <= i < pieces(s, '.').len() ==> is_host_label(#[trigger] pieces(s, '.')[i])
}

fn valid_host_label(s: &str) -> (r: bool)
    ensures
        r == is_host_label(s@),
{
    let chars = chars_of(s);
    if chars.len() == 0 || s.as_bytes().len() > 63 || chars[0] == '-' || chars[chars.len() - 1]
        == '-' {
        return false;
    }
    let mut i: usize = 0;
    while i < chars.len()
        invariant
            chars@ == s@,
            i <= chars@.len(),
            forall|k: int| 0 <= k < i ==> is_alphanumeric(#[trigger] s@[k]) || s@[k] == '-',
        decreases chars.len() - i,
    {
        if !(ascii_alphanumeric(chars[i]) || chars[i] == '-') {
            assert(!(is_alphanumeric(s@[i as int]) || s@[i as int] == '-'));
            return false;
        }
        i += 1;
    }
    true
}

pub fn valid_hostname(value: &str) -> (r: bool)
    ensures
        r == is_hostname(value@),
{
    if value.is_empty() || value.as_bytes().len() > 253 {
        return false;
    }
    let labels = split(value, '.');
    let mut i: usize = 0;
    while i < labels.len()
        invariant
            labels.deep_view() == pieces(value@, '.'),
            i <= labels@.len(),
            forall|k: int| 0 <= k < i ==> is_host_label(#[trigger] pieces(value@, '.')[k]),
        decreases labels.len() - i,
    {
        assert(pieces(value@, '.')[i as int] == labels@[i as int]@);
        if !valid_host_label(labels[i].as_str()) {
            return false;
        }
        i += 1;
    }
    true
}

pub open spec fn toolchain_key_problem(key: Seq<char>) -> Option<Seq<char>> {
    if is_toolchain_key(key) {
        None
    } else {
        Some(
            "unsupported toolchain binding "@ + debug_text(key)
                + "; supported keys: CC, CXX, LD, AR, RANLIB, RUSTC"@,
        )
    }
}

pub fn validate_toolchain_key(key: &str) -> (r: Result<(), String>)
    ensures
        match r {
            Ok(()) => toolchain_key_problem(key@) is None,
            Err(m) => toolchain_key_problem(key@) == Some(m@),
        },
{
    if !supported_toolchain_key(key) {
        return Err(
            concat3(
                "unsupported toolchain binding ",
                quoted(key).as_str(),
                "; supported keys: CC, CXX, LD, AR, RANLIB, RUSTC",
            ),
        );
    }
    Ok(())
}

/// What is wrong with the single settings of a manifest.
pub open spec fn settings_problem(m: EnvironmentManifest) -> Option<Seq<char>> {
    if m.image is Some && is_blank(m.image->0@) {
        Some("environment image cannot be empty"@)
    } else if m.source_path is Some && container_path_problem("source_path"@, m.source_path->0@) is Some {
        container_path_problem("source_path"@, m.source_path->0@)
    } else if m.build_path is Some && container_path_problem("build_path"@, m.build_path->0@) is Some {
        container_path_problem("build_path"@, m.build_path->0@)
    } else if m.source_date_epoch is Some && m.source_date_epoch->0 < 0 {
        Some("source_date_epoch must be non-negative"@)
    } else if m.source_mtime_epoch is Some && m.source_mtime_epoch->0 < 0 {
        Some("source_mtime_epoch must be non-negative"@)
    } else if m.timezone is Some && m.timezone->0@.len() == 0 {
        Some("timezone cannot be empty"@)
    } else if m.locale is Some && m.locale->0@.len() == 0 {
        Some("locale cannot be empty"@)
    } else if m.hostname is Some && !is_hostname(m.hostname->0@) {
        Some("hostname contains unsupported characters or length"@)
    } else if m.cpu_count is Some && !(1 <= m.cpu_count->0 <= 1024) {
        Some("cpu_count must be between 1 and 1024"@)
    } else if m.umask is Some && umask_value(m.umask->0@) is Err {
        Some(umask_value(m.umask->0@)->Err_0)
    } else if m.network_mode is Some && m.network_mode->0@ != "default"@ && m.network_mode->0@
        != "none"@ {
        Some("network_mode must be either \"default\" or \"none\""@)
    } else {
        None
    }
}

fn check_settings(m: &EnvironmentManifest) -> (r: Option<String>)
    ensures
        r.deep_view() == settings_problem(*m),
{
    if let Some(image) = &m.image {
        if blank(image.as_str()) {
            return Some("environment image cannot be empty".to_owned());
        }
    }
    if let Some(path) = &m.source_path {
        if let Err(message) = validate_container_path("source_path", path.as_str()) {
            return Some(message);
        }
    }
    if let Some(path) = &m.build_path {
        if let Err(message) = validate_container_path("build_path", path.as_str()) {
            return Some(message);
        }
    }
    if let Some(epoch) = m.source_date_epoch {
        if epoch < 0 {
            return Some("source_date_epoch must be non-negative".to_owned());
        }
    }
    if let Some(epoch) = m.source_mtime_epoch {
        if epoch < 0 {
            return Some("source_mtime_epoch must be non-negative".to_owned());
        }
    }
    if let Some(timezone) = &m.timezone {
        if timezone.as_str().is_empty() {
            return Some("timezone cannot be empty".to_owned());
        }
    }
    if let Some(locale) = &m.locale {
        if locale.as_str().is_empty() {
            return Some("locale cannot be empty".to_owned());
        }
    }
    if let Some(hostname) = &m.hostname {
        if !valid_hostname(hostname.as_str()) {
            return Some("hostname contains unsupported characters or length".to_owned());
        }
    }
    if let Some(cpu_count) = m.cpu_count {
        if !(1 <= cpu_count && cpu_count <= 1024) {
            return Some("cpu_count must be between 1 and 1024".to_owned());
        }
    }
    if let Some(value) = &m.umask {
        if let Err(message) = parse_umask(value.as_str()) {
            return Some(message);
        }
    }
    if let Some(mode) = &m.network_mode {
        if !same(mode.as_str(), "default") && !same(mode.as_str(), "none") {
            return Some("network_mode must be either \"default\" or \"none\"".to_owned());
        }
    }
    None
}

/// What is wrong with the variables to unset from `i` on.
pub open spec fn unset_variables_problem(m: EnvironmentManifest, i: int) -> Option<Seq<char>>
    decreases m.unset_variables@.len() - i,
{
    if i >= m.unset_variables@.len() {
        None
    } else {
        let key = m.unset_variables@[i]@;
        if !is_variable_name(key) {
            Some(
                "unset_variables contains invalid environment variable name "@ + debug_text(key),
            )
        } else if listed_before(m.unset_variables@, i, key) {
            Some("unset_variables contains duplicate key "@ + debug_text(key))
        } else if value_at(Order::Text, m.variables.deep_view(), key) is Some {
            Some("environment variable "@ + debug_text(key) + " cannot be both set and unset"@)
        } else {
            unset_variables_problem(m, i + 1)
        }
    }
}

fn check_unset_variables(m: &EnvironmentManifest) -> (r: Option<String>)
    ensures
        r.deep_view() == unset_variables_problem(*m, 0),
{
    let mut i: usize = 0;
    while i < m.unset_variables.len()
        invariant
            i <= m.unset_variables@.len(),
            unset_variables_problem(*m, 0) == unset_variables_problem(*m, i as int),
        decreases m.unset_variables.len() - i,
    {
        let key = m.unset_variables[i].as_str();
        if !valid_environment_variable_name(key) {
            return Some(
                concat(
                    "unset_variables contains invalid environment variable name ",
                    quoted(key).as_str(),
                ),
            );
        }
        if seen_before(&m.unset_variables, i, key) {
            return Some(
                concat("unset_variables contains duplicate key ", quoted(key).as_str()),
            );
        }
        if m.variables.get(key).is_some() {
            return Some(
                concat3(
                    "environment variable ",
                    quoted(key).as_str(),
                    " cannot be both set and unset",
                ),
            );
        }
        i += 1;
    }
    None
}

/// What is wrong with the names of the variables to set from `i` on.
pub open spec fn set_variables_problem(entries: Entries, i: int) -> Option<Seq<char>>
    decreases entries.len() - i,
{
    if i >= entries.len() {
        None
    } else if !is_variable_name(entries[i].0) {
        Some(
            "variables contains invalid environment variable name "@ + debug_text(entries[i].0),
        )
    } else {
        set_variables_problem(entries, i + 1)
    }
}

fn check_set_variables(variables: &StringMap) -> (r: Option<String>)
    ensures
        r.deep_view() == set_variables_problem(variables.deep_view(), 0),
{
    let entries = variables.entries();
    let mut i: usize = 0;
    while i < entries.len()
        invariant
            entries.deep_view() == variables.deep_view(),
            i <= entries@.len(),
            set_variables_problem(variables.deep_view(), 0) == set_variables_problem(
                variables.deep_view(),
                i as int,
            ),
        decreases entries.len() - i,
    {
        assert(entries.deep_view()[i as int].0 == entries@[i as int].0@);
        if !valid_environment_variable_name(entries[i].0.as_str()) {
            return Some(
                concat(
                    "variables contains invalid environment variable name ",
                    quoted(entries[i].0.as_str()).as_str(),
                ),
            );
        }
        i += 1;
    }
    None
}

/// What is wrong with the toolchain bindings to unset from `i` on.
pub open spec fn unset_toolchain_problem(m: EnvironmentManifest, i: int) -> Option<Seq<char>>
    decreases m.unset_toolchain@.len() - i,
{
    if i >= m.unset_toolchain@.len() {
        None
    } else {
        let key = m.unset_toolchain@[i]@;
        if !is_toolchain_key(key) {
            toolchain_key_problem(key)
        } else if listed_before(m.unset_toolchain@, i, key) {
            Some("unset_toolchain contains duplicate key "@ + debug_text(key))
        } else if value_at(Order::Text, m.toolchain.deep_view(), key) is Some {
            Some("toolchain binding "@ + debug_text(key) + " cannot be both set and unset"@)
        } else {
            unset_toolchain_problem(m, i + 1)
        }
    }
}

fn check_unset_toolchain(m: &EnvironmentManifest) -> (r: Option<String>)
    ensures
        r.deep_view() == unset_toolchain_problem(*m, 0),
{
    let mut i: usize = 0;
    while i < m.unset_toolchain.len()
        invariant
            i <= m.unset_toolchain@.len(),
            unset_toolchain_problem(*m, 0) == unset_toolchain_problem(*m, i as int),
        decreases m.unset_toolchain.len() - i,
    {
        let key = m.unset_toolchain[i].as_str();
        if let Err(message) = validate_toolchain_key(key) {
            return Some(message);
        }
        if seen_before(&m.unset_toolchain, i, key) {
            return Some(
                concat("unset_toolchain contains duplicate key ", quoted(key).as_str()),
            );
        }
        if m.toolchain.get(key).is_some() {
            return Some(
                concat3(
                    "toolchain binding ",
                    quoted(key).as_str(),
                    " cannot be both set and unset",
                ),
            );
        }
        i += 1;
    }
    None
}

/// What is wrong with the toolchain bindings to set from `i` on.
pub open spec fn set_toolchain_problem(entries: Entries, i: int) -> Option<Seq<char>>
    decreases entries.len() - i,
{
    if i >= entries.len() {
        None
    } else if !is_toolchain_key(entries[i].0) {
        toolchain_key_problem(entries[i].0)
    } else if !is_safe_executable(entries[i].1) {
        Some(
            "toolchain."@ + entries[i].0 + " contains unsafe executable value "@ + debug_text(
                entries[i].1,
            ),
        )
    } else {
        set_toolchain_problem(entries, i + 1)
    }
}

fn check_set_toolchain(toolchain: &StringMap) -> (r: Option<String>)
    ensures
        r.deep_view() == set_toolchain_problem(toolchain.deep_view(), 0),
{
    let entries = toolchain.entries();
    let mut i: usize = 0;
    while i < entries.len()
        invariant
            entries.deep_view() == toolchain.deep_view(),
            i <= entries@.len(),
            set_toolchain_problem(toolchain.deep_view(), 0) == set_toolchain_problem(
                toolchain.deep_view(),
                i as int,
            ),
        decreases entries.len() - i,
    {
        assert(entries.deep_view()[i as int].0 == entries@[i as int].0@);
        assert(entries.deep_view()[i as int].1 == entries@[i as int].1@);
        let key = entries[i].0.as_str();
        let value = entries[i].1.as_str();
        if let Err(message) = validate_toolchain_key(key) {
            return Some(message);
        }
        if !valid_toolchain_executable(value) {
            let mut message = concat3("toolchain.", key, " contains unsafe executable value ");
            message.push_str(quoted(value).as_str());
            return Some(message);
        }
        i += 1;
    }
    None
}

/// What is wrong with the dependency overrides from `i` on, given the states of their files.
pub open spec fn overrides_problem(
    entries: Entries,
    files: Seq<VariantFiles>,
    i: int,
) -> Option<Seq<char>>
    decreases entries.len() - i,
{
    if i >= entries.len() {
        None
    } else {
        or_else(
            relative_path_problem("dependency_overrides target"@, entries[i].0),
            or_else(
                relative_path_problem("dependency_overrides variant"@, entries[i].1),
                or_else(
                    regular_file_problem(
                        files[i].target,
                        "dependency override target"@,
                        entries[i].0,
                    ),
                    or_else(
                        regular_file_problem(
                            files[i].variant_file,
                            "dependency override variant"@,
                            entries[i].1,
                        ),
                        overrides_problem(entries, files, i + 1),
                    ),
                ),
            ),
        )
    }
}

fn check_overrides(overrides: &PathMap, files: &Vec<VariantFiles>) -> (r: Option<String>)
    requires
        files@.len() == overrides.deep_view().len(),
    ensures
        r.deep_view() == overrides_problem(overrides.deep_view(), files@, 0),
{
    let entries = overrides.entries();
    let mut i: usize = 0;
    while i < entries.len()
        invariant
            entries.deep_view() == overrides.deep_view(),
            files@.len() == entries@.len(),
            i <= entries@.len(),
            overrides_problem(overrides.deep_view(), files@, 0) == overrides_problem(
                overrides.deep_view(),
                files@,
                i as int,
            ),
        decreases entries.len() - i,
    {
        assert(entries.deep_view()[i as int].0 == entries@[i as int].0@);
        assert(entries.deep_view()[i as int].1 == entries@[i as int].1@);
        let target = entries[i].0.as_str();
        let variant = entries[i].1.as_str();
        if let Err(message) = validate_relative_path("dependency_overrides target", target) {
            return Some(message);
        }
        if let Err(message) = validate_relative_path("dependency_overrides variant", variant) {
            return Some(message);
        }
        if let Err(message) = validate_regular_project_file(
            &files[i].target,
            "dependency override target",
            target,
        ) {
            return Some(message);
        }
        if let Err(message) = validate_regular_project_file(
            &files[i].variant_file,
            "dependency override variant",
            variant,
        ) {
            return Some(message);
        }
        i += 1;
    }
    None
}

/// The first thing that is wrong with a manifest, given the states of the files it names.
pub open spec fn manifest_problem(m: EnvironmentManifest, files: Seq<VariantFiles>) -> Option<
    Seq<char>,
> {
    or_else(
        settings_problem(m),
        or_else(
            unset_variables_problem(m, 0),
            or_else(
                set_variables_problem(m.variables.deep_view(), 0),
                or_else(
                    unset_toolchain_problem(m, 0),
                    or_else(
                        set_toolchain_problem(m.toolchain.deep_view(), 0),
                        overrides_problem(m.dependency_overrides.deep_view(), files, 0),
                    ),
                ),
            ),
        ),
    )
}


/// `entries` after the first `n` of `keys` have been taken out.
pub open spec fn keys_removed(order: Order, entries: Entries, keys: Seq<String>, n: int) -> Entries
    decreases n,
{
    if n <= 0 {
        entries
    } else {
        without_entry(order, keys_removed(order, entries, keys, n - 1), keys[n - 1]@)
    }
}

/// `entries` after the first `n` of `added` have been put in.
pub open spec fn entries_added(order: Order, entries: Entries, added: Entries, n: int) -> Entries
    decreases n,
{
    if n <= 0 {
        entries
    } else {
        with_entry(
            order,
            entries_added(order, entries, added, n - 1),
            added[n - 1].0,
            added[n - 1].1,
        )
    }
}

fn remove_keys(map: &mut StringMap, keys: &Vec<String>)
    ensures
        final(map).deep_view() == keys_removed(
            Order::Text,
            old(map).deep_view(),
            keys@,
            keys@.len() as int,
        ),
{
    let ghost had = map.deep_view();
    let mut i: usize = 0;
    while i < keys.len()
        invariant
            i <= keys@.len(),
            map.deep_view() == keys_removed(Order::Text, had, keys@, i as int),
        decreases keys.len() - i,
    {
        map.remove(keys[i].as_str());
        i += 1;
    }
}

pub fn add_entries(map: &mut StringMap, added: &StringMap)
    ensures
        final(map).deep_view() == entries_added(
            Order::Text,
            old(map).deep_view(),
            added.deep_view(),
            added.deep_view().len() as int,
        ),
{
    let ghost had = map.deep_view();
    let entries = added.entries();
    let mut i: usize = 0;
    while i < entries.len()
        invariant
            entries.deep_view() == added.deep_view(),
            i <= entries@.len(),
            map.deep_view() == entries_added(Order::Text, had, added.deep_view(), i as int),
        decreases entries.len() - i,
    {
        assert(entries.deep_view()[i as int].0 == entries@[i as int].0@);
        assert(entries.deep_view()[i as int].1 == entries@[i as int].1@);
        map.insert(entries[i].0.clone(), entries[i].1.clone());
        i += 1;
    }
}

fn add_path_entries(map: &mut PathMap, added: &PathMap)
    ensures
        final(map).deep_view() == entries_added(
            Order::Path,
            old(map).deep_view(),
            added.deep_view(),
            added.deep_view().len() as int,
        ),
{
    let ghost had = map.deep_view();
    let entries = added.entries();
    let mut i: usize = 0;
    while i < entries.len()
        invariant
            entries.deep_view() == added.deep_view(),
            i <= entries@.len(),
            map.deep_view() == entries_added(Order::Path, had, added.deep_view(), i as int),
        decreases entries.len() - i,
    {
        assert(entries.deep_view()[i as int].0 == entries@[i as int].0@);
        assert(entries.deep_view()[i as int].1 == entries@[i as int].1@);
        map.insert(entries[i].0.clone(), entries[i].1.clone());
        i += 1;
    }
}

/// The environment variables that the named settings of a manifest determine.
pub open spec fn named_variables(m: EnvironmentManifest, entries: Entries) -> Entries {
    let a = match m.source_date_epoch {
        Some(epoch) => with_entry(
            Order::Text,
            entries,
            "SOURCE_DATE_EPOCH"@,
            decimal_of(epoch as int),
        ),
        None => entries,
    };
    let b = match m.timezone {
        Some(timezone) => with_entry(Order::Text, a, "TZ"@, timezone@),
        None => a,
    };
    match m.locale {
        Some(locale) => with_entry(
            Order::Text,
            with_entry(Order::Text, b, "LANG"@, locale@),
            "LC_ALL"@,
            locale@,
        ),
        None => b,
    }
}

/// `value` where there is one, else `otherwise`.
pub open spec fn text_or(value: Option<String>, otherwise: Seq<char>) -> Seq<char> {
    match value {
        Some(text) => text@,
        None => otherwise,
    }
}

/// The environment that a manifest makes of `baseline` in a project built with `image`.
pub open spec fn manifest_environment(
    m: EnvironmentManifest,
    baseline: ControlledEnvironmentView,
    image: Seq<char>,
) -> ControlledEnvironmentView {
    let variables = keys_removed(
        Order::Text,
        named_variables(m, baseline.environment),
        m.unset_variables@,
        m.unset_variables@.len() as int,
    );
    let bindings = keys_removed(
        Order::Text,
        baseline.toolchain_bindings,
        m.unset_toolchain@,
        m.unset_toolchain@.len() as int,
    );
    ControlledEnvironmentView {
        image_override: match m.image {
            Some(own) => if own@ == image {
                None
            } else {
                Some(own@)
            },
            None => baseline.image_override,
        },
        container_source_path: text_or(m.source_path, baseline.container_source_path),
        container_work_path: text_or(m.build_path, baseline.container_work_path),
        source_copy_order: match m.source_copy_order {
            Some(order) => order,
            None => baseline.source_copy_order,
        },
        environment: entries_added(
            Order::Text,
            variables,
            m.variables.deep_view(),
            m.variables.deep_view().len() as int,
        ),
        toolchain_bindings: entries_added(
            Order::Text,
            bindings,
            m.toolchain.deep_view(),
            m.toolchain.deep_view().len() as int,
        ),
        source_file_overrides: entries_added(
            Order::Path,
            baseline.source_file_overrides,
            m.dependency_overrides.deep_view(),
            m.dependency_overrides.deep_view().len() as int,
        ),
        hostname: match m.hostname {
            Some(hostname) => Some(hostname@),
            None => baseline.hostname,
        },
        cpu_count: if m.cpu_count is Some {
            m.cpu_count
        } else {
            baseline.cpu_count
        },
        source_mtime_epoch: if m.source_mtime_epoch is Some {
            m.source_mtime_epoch
        } else {
            baseline.source_mtime_epoch
        },
        umask: match m.umask {
            Some(value) => Some(umask_value(value@)->Ok_0),
            None => baseline.umask,
        },
        network_mode: text_or(m.network_mode, baseline.network_mode),
        ..baseline
    }
}

fn setting(value: &Option<String>, otherwise: &String) -> (r: String)
    ensures
        r@ == text_or(*value, otherwise@),
{
    match value {
        Some(text) => text.clone(),
        None => otherwise.clone(),
    }
}

impl EnvironmentManifest {
    /// The environment that this manifest makes of `baseline`. It fails only on a mask that is
    /// no octal number up to 777.
    pub fn apply(&self, baseline: &ControlledEnvironment, config: &Config) -> (r: Result<
        ControlledEnvironment,
        String,
    >)
        ensures
            match r {
                Ok(environment) => (self.umask matches Some(value) ==> umask_value(value@) is Ok)
                    && environment.deep_view() == manifest_environment(
                    *self,
                    baseline.deep_view(),
                    config.build.image@,
                ),
                Err(message) => self.umask matches Some(value) && umask_value(value@) == Err::<
                    u32,
                    Seq<char>,
                >(message@),
            },
    {
        let umask = match &self.umask {
            Some(value) => match parse_umask(value.as_str()) {
                Ok(mask) => Some(mask),
                Err(message) => {
                    return Err(message);
                },
            },
            None => baseline.umask,
        };
        let mut environment = self.named_variables(&baseline.environment);
        remove_keys(&mut environment, &self.unset_variables);
        add_entries(&mut environment, &self.variables);
        let mut toolchain_bindings = baseline.toolchain_bindings.clone();
        remove_keys(&mut toolchain_bindings, &self.unset_toolchain);
        add_entries(&mut toolchain_bindings, &self.toolchain);
        let mut source_file_overrides = baseline.source_file_overrides.clone();
        add_path_entries(&mut source_file_overrides, &self.dependency_overrides);
        Ok(
            ControlledEnvironment {
                image_override: match &self.image {
                    Some(image) => if same(image.as_str(), config.build.image.as_str()) {
                        None
                    } else {
                        Some(image.clone())
                    },
                    None => baseline.image_override.clone(),
                },
                container_source_path: setting(&self.source_path, &baseline.container_source_path),
                container_work_path: setting(&self.build_path, &baseline.container_work_path),
                source_copy_order: match self.source_copy_order {
                    Some(order) => order,
                    None => baseline.source_copy_order,
                },
                environment,
                toolchain_bindings,
                source_file_overrides,
                hostname: match &self.hostname {
                    Some(hostname) => Some(hostname.clone()),
                    None => baseline.hostname.clone(),
                },
                cpu_count: if self.cpu_count.is_some() {
                    self.cpu_count
                } else {
                    baseline.cpu_count
                },
                source_mtime_epoch: if self.source_mtime_epoch.is_some() {
                    self.source_mtime_epoch
                } else {
                    baseline.source_mtime_epoch
                },
                umask,
                network_mode: setting(&self.network_mode, &baseline.network_mode),
                network_trace: baseline.network_trace,
                file_input_trace: baseline.file_input_trace,
                syscall_trace_max_bytes: baseline.syscall_trace_max_bytes,
                runtime_dependency_provenance: baseline.runtime_dependency_provenance,
                dependency_cache_paths: baseline.dependency_cache_paths.clone(),
                dependency_cache_max_files: baseline.dependency_cache_max_files,
                dependency_cache_max_bytes: baseline.dependency_cache_max_bytes,
            },
        )
    }

    fn named_variables(&self, baseline: &StringMap) -> (r: StringMap)
        ensures
            r.deep_view() == named_variables(*self, baseline.deep_view()),
    {
        let mut variables = baseline.clone();
        if let Some(epoch) = self.source_date_epoch {
            variables.insert("SOURCE_DATE_EPOCH".to_owned(), signed_decimal(epoch));
        }
        if let Some(timezone) = &self.timezone {
            variables.insert("TZ".to_owned(), timezone.clone());
        }
        if let Some(locale) = &self.locale {
            variables.insert("LANG".to_owned(), locale.clone());
            variables.insert("LC_ALL".to_owned(), locale.clone());
        }
        variables
    }

    /// Accepts a manifest or names the first thing that is wrong with it. `files` gives the states
    /// of the files that the dependency overrides name, in their order.
    pub fn validate(&self, files: &Vec<VariantFiles>) -> (r: Result<(), String>)
        requires
            files@.len() == self.dependency_overrides.deep_view().len(),
        ensures
            match r {
                Ok(()) => manifest_problem(*self, files@) is None,
                Err(m) => manifest_problem(*self, files@) == Some(m@),
            },
    {
        match self.find_problem(files) {
            Some(message) => Err(message),
            None => Ok(()),
        }
    }

    fn find_problem(&self, files: &Vec<VariantFiles>) -> (r: Option<String>)
        requires
            files@.len() == self.dependency_overrides.deep_view().len(),
        ensures
            r.deep_view() == manifest_problem(*self, files@),
    {
        let problem = check_settings(self);
        if problem.is_some() {
            return problem;
        }
        let problem = check_unset_variables(self);
        if problem.is_some() {
            return problem;
        }
        let problem = check_set_variables(&self.variables);
        if problem.is_some() {
            return problem;
        }
        let problem = check_unset_toolchain(self);
        if problem.is_some() {
            return problem;
        }
        let problem = check_set_toolchain(&self.toolchain);
        if problem.is_some() {
            return problem;
        }
        check_overrides(&self.dependency_overrides, files)
    }
}


/// One setting of an environment and the value it is given.
#[derive(Debug, PartialEq)]
pub enum EnvironmentChange {
    ImageOverride(Option<String>),
    SourcePath(String),
    BuildPath(String),
    SourceCopyOrder(SourceCopyOrder),
    EnvironmentVariable(String, Option<String>),
    ToolchainBinding(String, Option<String>),
    SourceOverride(String, Option<String>),
    Hostname(Option<String>),
    CpuCount(Option<u32>),
    SourceMtime(Option<i64>),
    Umask(Option<u32>),
    NetworkMode(String),
}

pub enum EnvironmentChangeView {
    ImageOverride(Option<Seq<char>>),
    SourcePath(Seq<char>),
    BuildPath(Seq<char>),
    SourceCopyOrder(SourceCopyOrder),
    EnvironmentVariable(Seq<char>, Option<Seq<char>>),
    ToolchainBinding(Seq<char>, Option<Seq<char>>),
    SourceOverride(Seq<char>, Option<Seq<char>>),
    Hostname(Option<Seq<char>>),
    CpuCount(Option<u32>),
    SourceMtime(Option<i64>),
    Umask(Option<u32>),
    NetworkMode(Seq<char>),
}

impl DeepView for EnvironmentChange {
    type V = EnvironmentChangeView;

    open spec fn deep_view(&self) -> EnvironmentChangeView {
        match self {
            EnvironmentChange::ImageOverride(v) => EnvironmentChangeView::ImageOverride(
                v.deep_view(),
            ),
            EnvironmentChange::SourcePath(v) => EnvironmentChangeView::SourcePath(v@),
            EnvironmentChange::BuildPath(v) => EnvironmentChangeView::BuildPath(v@),
            EnvironmentChange::SourceCopyOrder(v) => EnvironmentChangeView::SourceCopyOrder(*v),
            EnvironmentChange::EnvironmentVariable(
                k,
                v,
            ) => EnvironmentChangeView::EnvironmentVariable(k@, v.deep_view()),
            EnvironmentChange::ToolchainBinding(k, v) => EnvironmentChangeView::ToolchainBinding(
                k@,
                v.deep_view(),
            ),
            EnvironmentChange::SourceOverride(k, v) => EnvironmentChangeView::SourceOverride(
                k@,
                v.deep_view(),
            ),
            EnvironmentChange::Hostname(v) => EnvironmentChangeView::Hostname(v.deep_view()),
            EnvironmentChange::CpuCount(v) => EnvironmentChangeView::CpuCount(*v),
            EnvironmentChange::SourceMtime(v) => EnvironmentChangeView::SourceMtime(*v),
            EnvironmentChange::Umask(v) => EnvironmentChangeView::Umask(*v),
            EnvironmentChange::NetworkMode(v) => EnvironmentChangeView::NetworkMode(v@),
        }
    }
}

impl Clone for EnvironmentChange {
    fn clone(&self) -> (r: EnvironmentChange)
        ensures
            r.deep_view() == self.deep_view(),
    {
        match self {
            EnvironmentChange::ImageOverride(v) => EnvironmentChange::ImageOverride(v.clone()),
            EnvironmentChange::SourcePath(v) => EnvironmentChange::SourcePath(v.clone()),
            EnvironmentChange::BuildPath(v) => EnvironmentChange::BuildPath(v.clone()),
            EnvironmentChange::SourceCopyOrder(v) => EnvironmentChange::SourceCopyOrder(*v),
            EnvironmentChange::EnvironmentVariable(k, v) => EnvironmentChange::EnvironmentVariable(
                k.clone(),
                v.clone(),
            ),
            EnvironmentChange::ToolchainBinding(k, v) => EnvironmentChange::ToolchainBinding(
                k.clone(),
                v.clone(),
            ),
            EnvironmentChange::SourceOverride(k, v) => EnvironmentChange::SourceOverride(
                k.clone(),
                v.clone(),
            ),
            EnvironmentChange::Hostname(v) => EnvironmentChange::Hostname(v.clone()),
            EnvironmentChange::CpuCount(v) => EnvironmentChange::CpuCount(*v),
            EnvironmentChange::SourceMtime(v) => EnvironmentChange::SourceMtime(*v),
            EnvironmentChange::Umask(v) => EnvironmentChange::Umask(*v),
            EnvironmentChange::NetworkMode(v) => EnvironmentChange::NetworkMode(v.clone()),
        }
    }
}

/// One difference between two environments: how it is reported and what it changes.
#[derive(Debug, PartialEq)]
pub struct EnvironmentDelta {
    pub record: EnvironmentDeltaRecord,
    pub change: EnvironmentChange,
}

pub struct EnvironmentDeltaView {
    pub record: EnvironmentDeltaRecordView,
    pub change: EnvironmentChangeView,
}

impl DeepView for EnvironmentDelta {
    type V = EnvironmentDeltaView;

    open spec fn deep_view(&self) -> EnvironmentDeltaView {
        EnvironmentDeltaView {
            record: self.record.deep_view(),
            change: self.change.deep_view(),
        }
    }
}

impl Clone for EnvironmentDelta {
    fn clone(&self) -> (r: EnvironmentDelta)
        ensures
            r.deep_view() == self.deep_view(),
    {
        EnvironmentDelta { record: self.record.clone(), change: self.change.clone() }
    }
}

pub open spec fn delta_of(
    variable: Seq<char>,
    baseline_value: Seq<char>,
    variant_value: Seq<char>,
    change: EnvironmentChangeView,
) -> EnvironmentDeltaView {
    EnvironmentDeltaView {
        record: EnvironmentDeltaRecordView { variable, baseline_value, variant_value },
        change,
    }
}

/// A list of one difference, or none.
pub open spec fn delta_if(differs: bool, delta: EnvironmentDeltaView) -> Seq<EnvironmentDeltaView> {
    if differs {
        seq![delta]
    } else {
        Seq::empty()
    }
}

pub open spec fn shown(value: Option<Seq<char>>, absent: Seq<char>) -> Seq<char> {
    match value {
        Some(text) => text,
        None => absent,
    }
}

/// The differences in image, paths and copy order.
pub open spec fn leading_deltas(
    good: ControlledEnvironmentView,
    bad: ControlledEnvironmentView,
) -> Seq<EnvironmentDeltaView> {
    delta_if(
        good.image_override != bad.image_override,
        delta_of(
            "build_image"@,
            shown(good.image_override, "<configured-base-image>"@),
            shown(bad.image_override, "<configured-base-image>"@),
            EnvironmentChangeView::ImageOverride(bad.image_override),
        ),
    ) + delta_if(
        good.container_source_path != bad.container_source_path,
        delta_of(
            "source_path"@,
            good.container_source_path,
            bad.container_source_path,
            EnvironmentChangeView::SourcePath(bad.container_source_path),
        ),
    ) + delta_if(
        good.container_work_path != bad.container_work_path,
        delta_of(
            "build_path"@,
            good.container_work_path,
            bad.container_work_path,
            EnvironmentChangeView::BuildPath(bad.container_work_path),
        ),
    ) + delta_if(
        good.source_copy_order != bad.source_copy_order,
        delta_of(
            "directory_order"@,
            copy_order_name(good.source_copy_order),
            copy_order_name(bad.source_copy_order),
            EnvironmentChangeView::SourceCopyOrder(bad.source_copy_order),
        ),
    )
}

pub open spec fn shown_count(value: Option<u32>) -> Seq<char> {
    match value {
        Some(n) => decimal_of(n as int),
        None => "<runtime-default>"@,
    }
}

pub open spec fn shown_epoch(value: Option<i64>) -> Seq<char> {
    match value {
        Some(n) => decimal_of(n as int),
        None => "<preserved>"@,
    }
}

/// A mask as at least three octal digits.
pub open spec fn octal_mask(value: u32) -> Seq<char> {
    zero_padded(digits_of(value as nat, 8), 3)
}

pub open spec fn shown_mask(value: Option<u32>) -> Seq<char> {
    match value {
        Some(n) => octal_mask(n),
        None => "<runtime-default>"@,
    }
}

/// The differences in host name, processors, times, mask and network.
pub open spec fn trailing_deltas(
    good: ControlledEnvironmentView,
    bad: ControlledEnvironmentView,
) -> Seq<EnvironmentDeltaView> {
    delta_if(
        good.hostname != bad.hostname,
        delta_of(
            "hostname"@,
            shown(good.hostname, "<runtime-default>"@),
            shown(bad.hostname, "<runtime-default>"@),
            EnvironmentChangeView::Hostname(bad.hostname),
        ),
    ) + delta_if(
        good.cpu_count != bad.cpu_count,
        delta_of(
            "cpu_count"@,
            shown_count(good.cpu_count),
            shown_count(bad.cpu_count),
            EnvironmentChangeView::CpuCount(bad.cpu_count),
        ),
    ) + delta_if(
        good.source_mtime_epoch != bad.source_mtime_epoch,
        delta_of(
            "source_mtime"@,
            shown_epoch(good.source_mtime_epoch),
            shown_epoch(bad.source_mtime_epoch),
            EnvironmentChangeView::SourceMtime(bad.source_mtime_epoch),
        ),
    ) + delta_if(
        good.umask != bad.umask,
        delta_of(
            "umask"@,
            shown_mask(good.umask),
            shown_mask(bad.umask),
            EnvironmentChangeView::Umask(bad.umask),
        ),
    ) + delta_if(
        good.network_mode != bad.network_mode,
        delta_of(
            "network_access"@,
            good.network_mode,
            bad.network_mode,
            EnvironmentChangeView::NetworkMode(bad.network_mode),
        ),
    )
}

/// A family of settings that an environment keeps by key.
#[derive(Debug, Clone, Copy, PartialEq, Eq, Structural)]
pub enum KeyedSetting {
    Variable,
    Binding,
    Override,
}

pub open spec fn setting_order(setting: KeyedSetting) -> Order {
    match setting {
        KeyedSetting::Override => Order::Path,
        _ => Order::Text,
    }
}

pub open spec fn setting_entries(setting: KeyedSetting, e: ControlledEnvironmentView) -> Entries {
    match setting {
        KeyedSetting::Variable => e.environment,
        KeyedSetting::Binding => e.toolchain_bindings,
        KeyedSetting::Override => e.source_file_overrides,
    }
}

pub open spec fn setting_prefix(setting: KeyedSetting) -> Seq<char> {
    match setting {
        KeyedSetting::Variable => "environment:"@,
        KeyedSetting::Binding => "toolchain:"@,
        KeyedSetting::Override => "dependency:"@,
    }
}

pub open spec fn setting_absent(setting: KeyedSetting) -> Seq<char> {
    match setting {
        KeyedSetting::Override => "<original>"@,
        _ => "<unset>"@,
    }
}

pub open spec fn setting_change(
    setting: KeyedSetting,
    key: Seq<char>,
    value: Option<Seq<char>>,
) -> EnvironmentChangeView {
    match setting {
        KeyedSetting::Variable => EnvironmentChangeView::EnvironmentVariable(key, value),
        KeyedSetting::Binding => EnvironmentChangeView::ToolchainBinding(key, value),
        KeyedSetting::Override => EnvironmentChangeView::SourceOverride(key, value),
    }
}

/// Whether two values under a key count as equal: paths do when they name the same path.
pub open spec fn same_setting(
    setting: KeyedSetting,
    left: Option<Seq<char>>,
    right: Option<Seq<char>>,
) -> bool {
    match (left, right) {
        (None, None) => true,
        (Some(a), Some(b)) => if setting is Override {
            is_same_path(a, b)
        } else {
            a == b
        },
        _ => false,
    }
}

/// The differences under the first `n` of `keys`.
pub open spec fn keyed_deltas(
    setting: KeyedSetting,
    good: Entries,
    bad: Entries,
    keys: Entries,
    n: int,
) -> Seq<EnvironmentDeltaView>
    decreases n,
{
    if n <= 0 {
        Seq::empty()
    } else {
        let key = keys[n - 1].0;
        let left = value_at(setting_order(setting), good, key);
        let right = value_at(setting_order(setting), bad, key);
        keyed_deltas(setting, good, bad, keys, n - 1) + delta_if(
            !same_setting(setting, left, right),
            delta_of(
                setting_prefix(setting) + key,
                shown(left, setting_absent(setting)),
                shown(right, setting_absent(setting)),
                setting_change(setting, key, right),
            ),
        )
    }
}

/// The keys of either map in order.
pub open spec fn joint_entries(setting: KeyedSetting, good: Entries, bad: Entries) -> Entries {
    entries_added(setting_order(setting), good, bad, bad.len() as int)
}

/// The differences in one family of settings.
pub open spec fn setting_deltas(
    setting: KeyedSetting,
    good: ControlledEnvironmentView,
    bad: ControlledEnvironmentView,
) -> Seq<EnvironmentDeltaView> {
    let left = setting_entries(setting, good);
    let right = setting_entries(setting, bad);
    let keys = joint_entries(setting, left, right);
    keyed_deltas(setting, left, right, keys, keys.len() as int)
}

/// How `bad` differs from `good`: each setting with its two values and the change that gives it
/// the value of `bad`.
pub open spec fn environment_deltas(
    good: ControlledEnvironmentView,
    bad: ControlledEnvironmentView,
) -> Seq<EnvironmentDeltaView> {
    leading_deltas(good, bad) + setting_deltas(KeyedSetting::Variable, good, bad) + setting_deltas(
        KeyedSetting::Binding,
        good,
        bad,
    ) + setting_deltas(KeyedSetting::Override, good, bad) + trailing_deltas(good, bad)
}

fn push_delta(
    deltas: &mut Vec<EnvironmentDelta>,
    variable: String,
    baseline_value: String,
    variant_value: String,
    change: EnvironmentChange,
)
    ensures
        final(deltas).deep_view() == old(deltas).deep_view() + seq![
            delta_of(variable@, baseline_value@, variant_value@, change.deep_view()),
        ],
{
    let ghost had = deltas.deep_view();
    let delta = EnvironmentDelta {
        record: EnvironmentDeltaRecord { variable, baseline_value, variant_value },
        change,
    };
    let ghost view = delta.deep_view();
    deltas.push(delta);
    assert(deltas.deep_view() =~= had + seq![view]);
}

fn show(value: &Option<String>, absent: &str) -> (r: String)
    ensures
        r@ == shown(value.deep_view(), absent@),
{
    match value {
        Some(text) => text.clone(),
        None => absent.to_owned(),
    }
}

fn show_count(value: Option<u32>) -> (r: String)
    ensures
        r@ == shown_count(value),
{
    match value {
        Some(n) => decimal(n as u128),
        None => "<runtime-default>".to_owned(),
    }
}

fn show_epoch(value: Option<i64>) -> (r: String)
    ensures
        r@ == shown_epoch(value),
{
    match value {
        Some(n) => signed_decimal(n),
        None => "<preserved>".to_owned(),
    }
}

fn show_mask(value: Option<u32>) -> (r: String)
    ensures
        r@ == shown_mask(value),
{
    match value {
        Some(n) => padded_digits(n as u128, 8, 3),
        None => "<runtime-default>".to_owned(),
    }
}

fn push_leading_deltas(
    deltas: &mut Vec<EnvironmentDelta>,
    good: &ControlledEnvironment,
    bad: &ControlledEnvironment,
)
    ensures
        final(deltas).deep_view() == old(deltas).deep_view() + leading_deltas(
            good.deep_view(),
            bad.deep_view(),
        ),
{
    let ghost had = deltas.deep_view();
    if !same_option(&good.image_override, &bad.image_override) {
        push_delta(
            deltas,
            "build_image".to_owned(),
            show(&good.image_override, "<configured-base-image>"),
            show(&bad.image_override, "<configured-base-image>"),
            EnvironmentChange::ImageOverride(bad.image_override.clone()),
        );
    }
    if good.container_source_path != bad.container_source_path {
        push_delta(
            deltas,
            "source_path".to_owned(),
            good.container_source_path.clone(),
            bad.container_source_path.clone(),
            EnvironmentChange::SourcePath(bad.container_source_path.clone()),
        );
    }
    if good.container_work_path != bad.container_work_path {
        push_delta(
            deltas,
            "build_path".to_owned(),
            good.container_work_path.clone(),
            bad.container_work_path.clone(),
            EnvironmentChange::BuildPath(bad.container_work_path.clone()),
        );
    }
    if good.source_copy_order != bad.source_copy_order {
        push_delta(
            deltas,
            "directory_order".to_owned(),
            source_copy_order_name(good.source_copy_order).to_owned(),
            source_copy_order_name(bad.source_copy_order).to_owned(),
            EnvironmentChange::SourceCopyOrder(bad.source_copy_order),
        );
    }
    assert(deltas.deep_view() =~= had + leading_deltas(good.deep_view(), bad.deep_view()));
}

fn push_trailing_deltas(
    deltas: &mut Vec<EnvironmentDelta>,
    good: &ControlledEnvironment,
    bad: &ControlledEnvironment,
)
    ensures
        final(deltas).deep_view() == old(deltas).deep_view() + trailing_deltas(
            good.deep_view(),
            bad.deep_view(),
        ),
{
    let ghost had = deltas.deep_view();
    if !same_option(&good.hostname, &bad.hostname) {
        push_delta(
            deltas,
            "hostname".to_owned(),
            show(&good.hostname, "<runtime-default>"),
            show(&bad.hostname, "<runtime-default>"),
            EnvironmentChange::Hostname(bad.hostname.clone()),
        );
    }
    if good.cpu_count != bad.cpu_count {
        push_delta(
            deltas,
            "cpu_count".to_owned(),
            show_count(good.cpu_count),
            show_count(bad.cpu_count),
            EnvironmentChange::CpuCount(bad.cpu_count),
        );
    }
    if good.source_mtime_epoch != bad.source_mtime_epoch {
        push_delta(
            deltas,
            "source_mtime".to_owned(),
            show_epoch(good.source_mtime_epoch),
            show_epoch(bad.source_mtime_epoch),
            EnvironmentChange::SourceMtime(bad.source_mtime_epoch),
        );
    }
    if good.umask != bad.umask {
        push_delta(
            deltas,
            "umask".to_owned(),
            show_mask(good.umask),
            show_mask(bad.umask),
            EnvironmentChange::Umask(bad.umask),
        );
    }
    if good.network_mode != bad.network_mode {
        push_delta(
            deltas,
            "network_access".to_owned(),
            good.network_mode.clone(),
            bad.network_mode.clone(),
            EnvironmentChange::NetworkMode(bad.network_mode.clone()),
        );
    }
    assert(deltas.deep_view() =~= had + trailing_deltas(good.deep_view(), bad.deep_view()));
}

fn same_value(setting: KeyedSetting, left: &Option<String>, right: &Option<String>) -> (r: bool)
    ensures
        r == same_setting(setting, left.deep_view(), right.deep_view()),
{
    match (left, right) {
        (None, None) => true,
        (Some(a), Some(b)) => match setting {
            KeyedSetting::Override => same_path(a.as_str(), b.as_str()),
            _ => same(a.as_str(), b.as_str()),
        },
        _ => false,
    }
}

fn push_setting_delta(
    deltas: &mut Vec<EnvironmentDelta>,
    setting: KeyedSetting,
    key: &String,
    left: Option<String>,
    right: Option<String>,
)
    ensures
        final(deltas).deep_view() == old(deltas).deep_view() + delta_if(
            !same_setting(setting, left.deep_view(), right.deep_view()),
            delta_of(
                setting_prefix(setting) + key@,
                shown(left.deep_view(), setting_absent(setting)),
                shown(right.deep_view(), setting_absent(setting)),
                setting_change(setting, key@, right.deep_view()),
            ),
        ),
{
    if same_value(setting, &left, &right) {
        assert(deltas.deep_view() + Seq::<EnvironmentDeltaView>::empty() =~= deltas.deep_view());
        return ;
    }
    let (prefix, absent) = match setting {
        KeyedSetting::Variable => ("environment:", "<unset>"),
        KeyedSetting::Binding => ("toolchain:", "<unset>"),
        KeyedSetting::Override => ("dependency:", "<original>"),
    };
    let baseline_value = show(&left, absent);
    let variant_value = show(&right, absent);
    let change = match setting {
        KeyedSetting::Variable => EnvironmentChange::EnvironmentVariable(key.clone(), right),
        KeyedSetting::Binding => EnvironmentChange::ToolchainBinding(key.clone(), right),
        KeyedSetting::Override => EnvironmentChange::SourceOverride(key.clone(), right),
    };
    push_delta(deltas, concat(prefix, key.as_str()), baseline_value, variant_value, change);
}

pub fn owned(value: Option<&String>) -> (r: Option<String>)
    ensures
        r.deep_view() == match value {
            Some(text) => Some(text@),
            None => None,
        },
{
    match value {
        Some(text) => Some(text.clone()),
        None => None,
    }
}

fn push_map_deltas(
    deltas: &mut Vec<EnvironmentDelta>,
    setting: KeyedSetting,
    good: &StringMap,
    bad: &StringMap,
)
    requires
        !(setting is Override),
    ensures
        final(deltas).deep_view() == old(deltas).deep_view() + keyed_deltas(
            setting,
            good.deep_view(),
            bad.deep_view(),
            joint_entries(setting, good.deep_view(), bad.deep_view()),
            joint_entries(setting, good.deep_view(), bad.deep_view()).len() as int,
        ),
{
    let ghost had = deltas.deep_view();
    let mut joint = good.clone();
    add_entries(&mut joint, bad);
    let keys = joint.entries();
    let ghost all = joint_entries(setting, good.deep_view(), bad.deep_view());
    let mut n: usize = 0;
    assert(had + Seq::<EnvironmentDeltaView>::empty() =~= had);
    while n < keys.len()
        invariant
            !(setting is Override),
            keys.deep_view() == all,
            n <= keys@.len(),
            deltas.deep_view() == had + keyed_deltas(
                setting,
                good.deep_view(),
                bad.deep_view(),
                all,
                n as int,
            ),
        decreases keys.len() - n,
    {
        let key = &keys[n].0;
        assert(keys.deep_view()[n as int].0 == key@);
        let left = owned(good.get(key.as_str()));
        let right = owned(bad.get(key.as_str()));
        let ghost before = deltas.deep_view();
        push_setting_delta(deltas, setting, key, left, right);
        n += 1;
        assert(deltas.deep_view() =~= had + keyed_deltas(
            setting,
            good.deep_view(),
            bad.deep_view(),
            all,
            n as int,
        ));
    }
}

fn push_override_deltas(deltas: &mut Vec<EnvironmentDelta>, good: &PathMap, bad: &PathMap)
    ensures
        final(deltas).deep_view() == old(deltas).deep_view() + keyed_deltas(
            KeyedSetting::Override,
            good.deep_view(),
            bad.deep_view(),
            joint_entries(KeyedSetting::Override, good.deep_view(), bad.deep_view()),
            joint_entries(KeyedSetting::Override, good.deep_view(), bad.deep_view()).len() as int,
        ),
{
    let ghost had = deltas.deep_view();
    let mut joint = good.clone();
    add_path_entries(&mut joint, bad);
    let keys = joint.entries();
    let ghost all = joint_entries(KeyedSetting::Override, good.deep_view(), bad.deep_view());
    let mut n: usize = 0;
    assert(had + Seq::<EnvironmentDeltaView>::empty() =~= had);
    while n < keys.len()
        invariant
            keys.deep_view() == all,
            n <= keys@.len(),
            deltas.deep_view() == had + keyed_deltas(
                KeyedSetting::Override,
                good.deep_view(),
                bad.deep_view(),
                all,
                n as int,
            ),
        decreases keys.len() - n,
    {
        let key = &keys[n].0;
        assert(keys.deep_view()[n as int].0 == key@);
        let left = owned(good.get(key.as_str()));
        let right = owned(bad.get(key.as_str()));
        push_setting_delta(deltas, KeyedSetting::Override, key, left, right);
        n += 1;
        assert(deltas.deep_view() =~= had + keyed_deltas(
            KeyedSetting::Override,
            good.deep_view(),
            bad.deep_view(),
            all,
            n as int,
        ));
    }
}

/// How `bad` differs from `good`, setting by setting.
pub fn diff_environments(good: &ControlledEnvironment, bad: &ControlledEnvironment) -> (r: Vec<
    EnvironmentDelta,
>)
    ensures
        r.deep_view() == environment_deltas(good.deep_view(), bad.deep_view()),
{
    let mut deltas: Vec<EnvironmentDelta> = Vec::new();
    push_leading_deltas(&mut deltas, good, bad);
    push_map_deltas(&mut deltas, KeyedSetting::Variable, &good.environment, &bad.environment);
    push_map_deltas(
        &mut deltas,
        KeyedSetting::Binding,
        &good.toolchain_bindings,
        &bad.toolchain_bindings,
    );
    push_override_deltas(&mut deltas, &good.source_file_overrides, &bad.source_file_overrides);
    push_trailing_deltas(&mut deltas, good, bad);
    assert(deltas.deep_view() =~= environment_deltas(good.deep_view(), bad.deep_view()));
    deltas
}

/// `entries` with `key` given `value`, or without it.
pub open spec fn entry_changed(
    order: Order,
    entries: Entries,
    key: Seq<char>,
    value: Option<Seq<char>>,
) -> Entries {
    match value {
        Some(text) => with_entry(order, entries, key, text),
        None => without_entry(order, entries, key),
    }
}

/// `e` after one change.
pub open spec fn changed_by(e: ControlledEnvironmentView, change: EnvironmentChangeView) -> ControlledEnvironmentView {
    match change {
        EnvironmentChangeView::ImageOverride(v) => ControlledEnvironmentView {
            image_override: v,
            ..e
        },
        EnvironmentChangeView::SourcePath(v) => ControlledEnvironmentView {
            container_source_path: v,
            ..e
        },
        EnvironmentChangeView::BuildPath(v) => ControlledEnvironmentView {
            container_work_path: v,
            ..e
        },
        EnvironmentChangeView::SourceCopyOrder(v) => ControlledEnvironmentView {
            source_copy_order: v,
            ..e
        },
        EnvironmentChangeView::EnvironmentVariable(k, v) => ControlledEnvironmentView {
            environment: entry_changed(Order::Text, e.environment, k, v),
            ..e
        },
        EnvironmentChangeView::ToolchainBinding(k, v) => ControlledEnvironmentView {
            toolchain_bindings: entry_changed(Order::Text, e.toolchain_bindings, k, v),
            ..e
        },
        EnvironmentChangeView::SourceOverride(k, v) => ControlledEnvironmentView {
            source_file_overrides: entry_changed(Order::Path, e.source_file_overrides, k, v),
            ..e
        },
        EnvironmentChangeView::Hostname(v) => ControlledEnvironmentView { hostname: v, ..e },
        EnvironmentChangeView::CpuCount(v) => ControlledEnvironmentView { cpu_count: v, ..e },
        EnvironmentChangeView::SourceMtime(v) => ControlledEnvironmentView {
            source_mtime_epoch: v,
            ..e
        },
        EnvironmentChangeView::Umask(v) => ControlledEnvironmentView { umask: v, ..e },
        EnvironmentChangeView::NetworkMode(v) => ControlledEnvironmentView {
            network_mode: v,
            ..e
        },
    }
}

/// `e` after the first `n` of `deltas`.
pub open spec fn changed_by_all(
    e: ControlledEnvironmentView,
    deltas: Seq<EnvironmentDeltaView>,
    n: int,
) -> ControlledEnvironmentView
    decreases n,
{
    if n <= 0 {
        e
    } else {
        changed_by(changed_by_all(e, deltas, n - 1), deltas[n - 1].change)
    }
}

fn change_entry(map: &mut StringMap, key: &String, value: &Option<String>)
    ensures
        final(map).deep_view() == entry_changed(
            Order::Text,
            old(map).deep_view(),
            key@,
            value.deep_view(),
        ),
{
    match value {
        Some(text) => map.insert(key.clone(), text.clone()),
        None => map.remove(key.as_str()),
    }
}

fn change_path_entry(map: &mut PathMap, key: &String, value: &Option<String>)
    ensures
        final(map).deep_view() == entry_changed(
            Order::Path,
            old(map).deep_view(),
            key@,
            value.deep_view(),
        ),
{
    match value {
        Some(text) => map.insert(key.clone(), text.clone()),
        None => map.remove(key.as_str()),
    }
}

fn apply_change(environment: &mut ControlledEnvironment, change: &EnvironmentChange)
    ensures
        final(environment).deep_view() == changed_by(
            old(environment).deep_view(),
            change.deep_view(),
        ),
{
    match change {
        EnvironmentChange::ImageOverride(value) => {
            environment.image_override = value.clone();
        },
        EnvironmentChange::SourcePath(value) => {
            environment.container_source_path = value.clone();
        },
        EnvironmentChange::BuildPath(value) => {
            environment.container_work_path = value.clone();
        },
        EnvironmentChange::SourceCopyOrder(value) => {
            environment.source_copy_order = *value;
        },
        EnvironmentChange::EnvironmentVariable(key, value) => {
            change_entry(&mut environment.environment, key, value);
        },
        EnvironmentChange::ToolchainBinding(key, value) => {
            change_entry(&mut environment.toolchain_bindings, key, value);
        },
        EnvironmentChange::SourceOverride(key, value) => {
            change_path_entry(&mut environment.source_file_overrides, key, value);
        },
        EnvironmentChange::Hostname(value) => {
            environment.hostname = value.clone();
        },
        EnvironmentChange::CpuCount(value) => {
            environment.cpu_count = *value;
        },
        EnvironmentChange::SourceMtime(value) => {
            environment.source_mtime_epoch = *value;
        },
        EnvironmentChange::Umask(value) => {
            environment.umask = *value;
        },
        EnvironmentChange::NetworkMode(value) => {
            environment.network_mode = value.clone();
        },
    }
}

/// `good` after the changes of `subset`, in their order.
pub fn apply_delta_subset(good: &ControlledEnvironment, subset: &[EnvironmentDelta]) -> (r:
    ControlledEnvironment)
    ensures
        r.deep_view() == changed_by_all(
            good.deep_view(),
            subset.deep_view(),
            subset@.len() as int,
        ),
{
    let mut environment = good.clone();
    let mut n: usize = 0;
    while n < subset.len()
        invariant
            n <= subset@.len(),
            environment.deep_view() == changed_by_all(
                good.deep_view(),
                subset.deep_view(),
                n as int,
            ),
        decreases subset.len() - n,
    {
        assert(subset.deep_view()[n as int] == subset@[n as int].deep_view());
        apply_change(&mut environment, &subset[n].change);
        n += 1;
    }
    environment
}


/// Whether the keyed settings of an environment are in order, as its maps keep them.
pub open spec fn is_ordered(e: ControlledEnvironmentView) -> bool {
    &&& increasing(Order::Text, e.environment)
    &&& increasing(Order::Text, e.toolchain_bindings)
    &&& increasing(Order::Path, e.source_file_overrides)
}

/// Whether two environments agree in every setting that is compared.
pub open spec fn agree(a: ControlledEnvironmentView, b: ControlledEnvironmentView) -> bool {
    &&& a.image_override == b.image_override
    &&& a.container_source_path == b.container_source_path
    &&& a.container_work_path == b.container_work_path
    &&& a.source_copy_order == b.source_copy_order
    &&& a.environment == b.environment
    &&& a.toolchain_bindings == b.toolchain_bindings
    &&& forall|k: Seq<char>|
        same_setting(
            KeyedSetting::Override,
            #[trigger] value_at(Order::Path, a.source_file_overrides, k),
            value_at(Order::Path, b.source_file_overrides, k),
        )
    &&& a.hostname == b.hostname
    &&& a.cpu_count == b.cpu_count
    &&& a.source_mtime_epoch == b.source_mtime_epoch
    &&& a.umask == b.umask
    &&& a.network_mode == b.network_mode
}

proof fn lemma_entries_added(order: Order, entries: Entries, added: Entries, n: int)
    requires
        increasing(order, entries),
        0 <= n <= added.len(),
    ensures
        increasing(order, entries_added(order, entries, added, n)),
        forall|k: Seq<char>| #[trigger]
            value_at(order, entries_added(order, entries, added, n), k) is None <==> {
                &&& value_at(order, entries, k) is None
                &&& forall|m: int|
                    0 <= m < n ==> key_of(order, #[trigger] added[m].0) != key_of(order, k)
            },
    decreases n,
{
    if n > 0 {
        lemma_entries_added(order, entries, added, n - 1);
        let before = entries_added(order, entries, added, n - 1);
        lemma_with_entry(order, before, added[n - 1].0, added[n - 1].1);
        let after = entries_added(order, entries, added, n);
        assert forall|k: Seq<char>| #[trigger] value_at(order, after, k) is None <==> value_at(
            order,
            entries,
            k,
        ) is None && (forall|m: int|
            0 <= m < n ==> key_of(order, #[trigger] added[m].0) != key_of(order, k)) by {
            if key_of(order, added[n - 1].0) == key_of(order, k) {
                lemma_same_key(order, after, added[n - 1].0, k);
            } else {
                assert(value_at(order, before, k) is None == value_at(order, after, k) is None);
            }
        }
    }
}

/// Keys that are ordered alike find the same value.
pub proof fn lemma_same_key(order: Order, entries: Entries, a: Seq<char>, b: Seq<char>)
    requires
        key_of(order, a) == key_of(order, b),
    ensures
        value_at(order, entries, a) == value_at(order, entries, b),
{
    lemma_same_place(order, entries, a, b, 0);
}

proof fn lemma_same_place(order: Order, entries: Entries, a: Seq<char>, b: Seq<char>, from: int)
    requires
        key_of(order, a) == key_of(order, b),
    ensures
        crate::string_map::place_from(order, entries, a, from) == crate::string_map::place_from(
            order,
            entries,
            b,
            from,
        ),
    decreases entries.len() - from,
{
    if from < entries.len() {
        lemma_same_place(order, entries, a, b, from + 1);
    }
}

proof fn lemma_changed_by_prefix(
    e: ControlledEnvironmentView,
    a: Seq<EnvironmentDeltaView>,
    b: Seq<EnvironmentDeltaView>,
    n: int,
)
    requires
        n <= a.len(),
    ensures
        changed_by_all(e, a + b, n) == changed_by_all(e, a, n),
    decreases n,
{
    if n > 0 {
        lemma_changed_by_prefix(e, a, b, n - 1);
    }
}

proof fn lemma_changed_by_concat(
    e: ControlledEnvironmentView,
    a: Seq<EnvironmentDeltaView>,
    b: Seq<EnvironmentDeltaView>,
    n: int,
)
    requires
        0 <= n <= b.len(),
    ensures
        changed_by_all(e, a + b, a.len() + n) == changed_by_all(
            changed_by_all(e, a, a.len() as int),
            b,
            n,
        ),
    decreases n,
{
    if n == 0 {
        lemma_changed_by_prefix(e, a, b, a.len() as int);
    } else {
        lemma_changed_by_concat(e, a, b, n - 1);
        assert((a + b)[a.len() + n - 1] == b[n - 1]);
    }
}

/// `e` after all of `deltas`.
pub open spec fn after_all(e: ControlledEnvironmentView, deltas: Seq<EnvironmentDeltaView>) -> ControlledEnvironmentView {
    changed_by_all(e, deltas, deltas.len() as int)
}

proof fn lemma_after_concat(
    e: ControlledEnvironmentView,
    a: Seq<EnvironmentDeltaView>,
    b: Seq<EnvironmentDeltaView>,
)
    ensures
        after_all(e, a + b) == after_all(after_all(e, a), b),
{
    lemma_changed_by_concat(e, a, b, b.len() as int);
}

proof fn lemma_after_one(e: ControlledEnvironmentView, differs: bool, d: EnvironmentDeltaView)
    ensures
        after_all(e, delta_if(differs, d)) == if differs {
            changed_by(e, d.change)
        } else {
            e
        },
{
    if differs {
        reveal_with_fuel(changed_by_all, 2);
        assert(delta_if(differs, d).len() == 1);
    }
}

/// One more possible difference at the end.
proof fn lemma_after_step(
    e: ControlledEnvironmentView,
    before: Seq<EnvironmentDeltaView>,
    differs: bool,
    d: EnvironmentDeltaView,
)
    ensures
        after_all(e, before + delta_if(differs, d)) == if differs {
            changed_by(after_all(e, before), d.change)
        } else {
            after_all(e, before)
        },
{
    lemma_after_concat(e, before, delta_if(differs, d));
    lemma_after_one(after_all(e, before), differs, d);
}

#[verifier::spinoff_prover]
#[verifier::rlimit(40)]
proof fn lemma_after_leading(
    e: ControlledEnvironmentView,
    good: ControlledEnvironmentView,
    bad: ControlledEnvironmentView,
)
    requires
        e.image_override == good.image_override,
        e.container_source_path == good.container_source_path,
        e.container_work_path == good.container_work_path,
        e.source_copy_order == good.source_copy_order,
    ensures
        after_all(e, leading_deltas(good, bad)) == (ControlledEnvironmentView {
            image_override: bad.image_override,
            container_source_path: bad.container_source_path,
            container_work_path: bad.container_work_path,
            source_copy_order: bad.source_copy_order,
            ..e
        }),
{
    let d0 = delta_of(
        "build_image"@,
        shown(good.image_override, "<configured-base-image>"@),
        shown(bad.image_override, "<configured-base-image>"@),
        EnvironmentChangeView::ImageOverride(bad.image_override),
    );
    let d1 = delta_of(
        "source_path"@,
        good.container_source_path,
        bad.container_source_path,
        EnvironmentChangeView::SourcePath(bad.container_source_path),
    );
    let d2 = delta_of(
        "build_path"@,
        good.container_work_path,
        bad.container_work_path,
        EnvironmentChangeView::BuildPath(bad.container_work_path),
    );
    let d3 = delta_of(
        "directory_order"@,
        copy_order_name(good.source_copy_order),
        copy_order_name(bad.source_copy_order),
        EnvironmentChangeView::SourceCopyOrder(bad.source_copy_order),
    );
    let s0 = delta_if(good.image_override != bad.image_override, d0);
    let s1 = delta_if(good.container_source_path != bad.container_source_path, d1);
    let s2 = delta_if(good.container_work_path != bad.container_work_path, d2);
    let s3 = delta_if(good.source_copy_order != bad.source_copy_order, d3);
    lemma_after_one(e, good.image_override != bad.image_override, d0);
    lemma_after_step(e, s0, good.container_source_path != bad.container_source_path, d1);
    lemma_after_step(e, s0 + s1, good.container_work_path != bad.container_work_path, d2);
    lemma_after_step(e, s0 + s1 + s2, good.source_copy_order != bad.source_copy_order, d3);
}

#[verifier::spinoff_prover]
#[verifier::rlimit(40)]
proof fn lemma_after_trailing(
    e: ControlledEnvironmentView,
    good: ControlledEnvironmentView,
    bad: ControlledEnvironmentView,
)
    requires
        e.hostname == good.hostname,
        e.cpu_count == good.cpu_count,
        e.source_mtime_epoch == good.source_mtime_epoch,
        e.umask == good.umask,
        e.network_mode == good.network_mode,
    ensures
        after_all(e, trailing_deltas(good, bad)) == (ControlledEnvironmentView {
            hostname: bad.hostname,
            cpu_count: bad.cpu_count,
            source_mtime_epoch: bad.source_mtime_epoch,
            umask: bad.umask,
            network_mode: bad.network_mode,
            ..e
        }),
{
    let d0 = delta_of(
        "hostname"@,
        shown(good.hostname, "<runtime-default>"@),
        shown(bad.hostname, "<runtime-default>"@),
        EnvironmentChangeView::Hostname(bad.hostname),
    );
    let d1 = delta_of(
        "cpu_count"@,
        shown_count(good.cpu_count),
        shown_count(bad.cpu_count),
        EnvironmentChangeView::CpuCount(bad.cpu_count),
    );
    let d2 = delta_of(
        "source_mtime"@,
        shown_epoch(good.source_mtime_epoch),
        shown_epoch(bad.source_mtime_epoch),
        EnvironmentChangeView::SourceMtime(bad.source_mtime_epoch),
    );
    let d3 = delta_of(
        "umask"@,
        shown_mask(good.umask),
        shown_mask(bad.umask),
        EnvironmentChangeView::Umask(bad.umask),
    );
    let d4 = delta_of(
        "network_access"@,
        good.network_mode,
        bad.network_mode,
        EnvironmentChangeView::NetworkMode(bad.network_mode),
    );
    let s0 = delta_if(good.hostname != bad.hostname, d0);
    let s1 = delta_if(good.cpu_count != bad.cpu_count, d1);
    let s2 = delta_if(good.source_mtime_epoch != bad.source_mtime_epoch, d2);
    let s3 = delta_if(good.umask != bad.umask, d3);
    let s4 = delta_if(good.network_mode != bad.network_mode, d4);
    lemma_after_one(e, good.hostname != bad.hostname, d0);
    lemma_after_step(e, s0, good.cpu_count != bad.cpu_count, d1);
    lemma_after_step(e, s0 + s1, good.source_mtime_epoch != bad.source_mtime_epoch, d2);
    lemma_after_step(e, s0 + s1 + s2, good.umask != bad.umask, d3);
    lemma_after_step(e, s0 + s1 + s2 + s3, good.network_mode != bad.network_mode, d4);
}

/// `e` with one family of settings replaced.
pub open spec fn with_setting(
    setting: KeyedSetting,
    e: ControlledEnvironmentView,
    entries: Entries,
) -> ControlledEnvironmentView {
    match setting {
        KeyedSetting::Variable => ControlledEnvironmentView { environment: entries, ..e },
        KeyedSetting::Binding => ControlledEnvironmentView { toolchain_bindings: entries, ..e },
        KeyedSetting::Override => ControlledEnvironmentView { source_file_overrides: entries, ..e },
    }
}

/// After the differences under the first `n` keys those keys have the values of `bad`, the other
/// keys those of `good`, and nothing else has changed.
proof fn lemma_after_keyed(
    setting: KeyedSetting,
    e: ControlledEnvironmentView,
    bad: Entries,
    keys: Entries,
    n: int,
)
    requires
        increasing(setting_order(setting), setting_entries(setting, e)),
        increasing(setting_order(setting), keys),
        0 <= n <= keys.len(),
    ensures
        ({
            let order = setting_order(setting);
            let good = setting_entries(setting, e);
            let after = after_all(e, keyed_deltas(setting, good, bad, keys, n));
            let entries = setting_entries(setting, after);
            &&& after == with_setting(setting, e, entries)
            &&& increasing(order, entries)
            &&& forall|k: Seq<char>|
                (forall|m: int| 0 <= m < n ==> key_of(order, #[trigger] keys[m].0) != key_of(order, k))
                    ==> #[trigger] value_at(order, entries, k) == value_at(order, good, k)
            &&& forall|k: Seq<char>|
                (exists|m: int|
                    0 <= m < n && key_of(order, #[trigger] keys[m].0) == key_of(order, k))
                    ==> same_setting(
                    setting,
                    #[trigger] value_at(order, entries, k),
                    value_at(order, bad, k),
                )
        }),
    decreases n,
{
    let order = setting_order(setting);
    let good = setting_entries(setting, e);
    if n == 0 {
        assert(after_all(e, keyed_deltas(setting, good, bad, keys, 0)) == e);
    } else {
        lemma_after_keyed(setting, e, bad, keys, n - 1);
        let key = keys[n - 1].0;
        let left = value_at(order, good, key);
        let right = value_at(order, bad, key);
        let d = delta_of(
            setting_prefix(setting) + key,
            shown(left, setting_absent(setting)),
            shown(right, setting_absent(setting)),
            setting_change(setting, key, right),
        );
        let before = keyed_deltas(setting, good, bad, keys, n - 1);
        let mid = after_all(e, before);
        let was = setting_entries(setting, mid);
        let differs = !same_setting(setting, left, right);
        lemma_after_concat(e, before, delta_if(differs, d));
        lemma_after_one(mid, differs, d);
        let after = after_all(e, keyed_deltas(setting, good, bad, keys, n));
        let entries = setting_entries(setting, after);
        assert forall|m: int| 0 <= m < n - 1 implies key_of(order, #[trigger] keys[m].0) != key_of(
            order,
            key,
        ) by {
            crate::ordering::lemma_before_irreflexive(key_of(order, key));
        }
        assert(value_at(order, was, key) == left);
        if differs {
            match right {
                Some(v) => lemma_with_entry(order, was, key, v),
                None => lemma_without_entry(order, was, key),
            }
            assert(entries == entry_changed(order, was, key, right));
            assert(value_at(order, entries, key) == right);
        }
        assert forall|k: Seq<char>|
            (forall|m: int| 0 <= m < n ==> key_of(order, #[trigger] keys[m].0) != key_of(order, k)) implies
            #[trigger] value_at(order, entries, k) == value_at(order, good, k) by {
            assert(key_of(order, keys[n - 1].0) != key_of(order, k));
            assert(value_at(order, was, k) == value_at(order, good, k));
        }
        assert forall|k: Seq<char>|
            (exists|m: int| 0 <= m < n && key_of(order, #[trigger] keys[m].0) == key_of(order, k)) implies
            same_setting(
            setting,
            #[trigger] value_at(order, entries, k),
            value_at(order, bad, k),
        ) by {
            if key_of(order, k) == key_of(order, key) {
                lemma_same_key(order, entries, k, key);
                lemma_same_key(order, bad, k, key);
            } else {
                let m = choose|m: int|
                    0 <= m < n && key_of(order, #[trigger] keys[m].0) == key_of(order, k);
                assert(m < n - 1);
                assert(same_setting(setting, value_at(order, was, k), value_at(order, bad, k)));
            }
        }
    }
}

/// After all differences of a family every key has the value of `bad`.
proof fn lemma_after_setting(
    setting: KeyedSetting,
    e: ControlledEnvironmentView,
    good: ControlledEnvironmentView,
    bad: ControlledEnvironmentView,
)
    requires
        is_ordered(good),
        is_ordered(bad),
        setting_entries(setting, e) == setting_entries(setting, good),
    ensures
        ({
            let order = setting_order(setting);
            let after = after_all(e, setting_deltas(setting, good, bad));
            let entries = setting_entries(setting, after);
            &&& after == with_setting(setting, e, entries)
            &&& increasing(order, entries)
            &&& forall|k: Seq<char>|
                same_setting(
                    setting,
                    #[trigger] value_at(order, entries, k),
                    value_at(order, setting_entries(setting, bad), k),
                )
            &&& !(setting is Override) ==> entries == setting_entries(setting, bad)
        }),
{
    let order = setting_order(setting);
    let left = setting_entries(setting, good);
    let right = setting_entries(setting, bad);
    let keys = joint_entries(setting, left, right);
    lemma_entries_added(order, left, right, right.len() as int);
    lemma_after_keyed(setting, e, right, keys, keys.len() as int);
    let after = after_all(e, setting_deltas(setting, good, bad));
    let entries = setting_entries(setting, after);
    assert forall|k: Seq<char>| same_setting(
        setting,
        #[trigger] value_at(order, entries, k),
        value_at(order, right, k),
    ) by {
        if has_key(order, keys, k) {
            let at = place_of(order, keys, k);
            lemma_place(order, keys, k);
            assert(key_of(order, keys[at].0) == key_of(order, k));
        } else {
            assert forall|m: int| 0 <= m < keys.len() implies key_of(order, #[trigger] keys[m].0)
                != key_of(order, k) by {
                if key_of(order, keys[m].0) == key_of(order, k) {
                    lemma_found(order, keys, m, k);
                }
            }
            assert(value_at(order, keys, k) is None);
            assert(value_at(order, left, k) is None);
            if has_key(order, right, k) {
                lemma_place(order, right, k);
                assert(key_of(order, right[place_of(order, right, k)].0) == key_of(order, k));
            }
        }
    }
    if !(setting is Override) {
        assert forall|k: Seq<char>| #[trigger] value_at(Order::Text, entries, k) == value_at(
            Order::Text,
            right,
            k,
        ) by {
            assert(same_setting(setting, value_at(order, entries, k), value_at(order, right, k)));
        }
        lemma_same_values(entries, right);
    }
}

/// Applying every difference between two environments to the first gives an environment that
/// agrees with the second in every compared setting and with the first in all others.
pub proof fn law_full_delta_reaches_the_other(
    good: ControlledEnvironmentView,
    bad: ControlledEnvironmentView,
)
    requires
        is_ordered(good),
        is_ordered(bad),
    ensures
        ({
            let deltas = environment_deltas(good, bad);
            let after = changed_by_all(good, deltas, deltas.len() as int);
            &&& agree(after, bad)
            &&& after == (ControlledEnvironmentView {
                image_override: bad.image_override,
                container_source_path: bad.container_source_path,
                container_work_path: bad.container_work_path,
                source_copy_order: bad.source_copy_order,
                environment: bad.environment,
                toolchain_bindings: bad.toolchain_bindings,
                source_file_overrides: after.source_file_overrides,
                hostname: bad.hostname,
                cpu_count: bad.cpu_count,
                source_mtime_epoch: bad.source_mtime_epoch,
                umask: bad.umask,
                network_mode: bad.network_mode,
                ..good
            })
        }),
{
    let lead = leading_deltas(good, bad);
    let vars = setting_deltas(KeyedSetting::Variable, good, bad);
    let binds = setting_deltas(KeyedSetting::Binding, good, bad);
    let overs = setting_deltas(KeyedSetting::Override, good, bad);
    let trail = trailing_deltas(good, bad);
    lemma_after_concat(good, lead + vars + binds + overs, trail);
    lemma_after_concat(good, lead + vars + binds, overs);
    lemma_after_concat(good, lead + vars, binds);
    lemma_after_concat(good, lead, vars);
    lemma_after_leading(good, good, bad);
    let e1 = after_all(good, lead);
    lemma_after_setting(KeyedSetting::Variable, e1, good, bad);
    let e2 = after_all(e1, vars);
    lemma_after_setting(KeyedSetting::Binding, e2, good, bad);
    let e3 = after_all(e2, binds);
    lemma_after_setting(KeyedSetting::Override, e3, good, bad);
    let e4 = after_all(e3, overs);
    lemma_after_trailing(e4, good, bad);
}

/// Keys with agreeing values make no difference.
proof fn lemma_no_keyed_deltas(
    setting: KeyedSetting,
    good: Entries,
    bad: Entries,
    keys: Entries,
    n: int,
)
    requires
        forall|k: Seq<char>|
            same_setting(
                setting,
                #[trigger] value_at(setting_order(setting), good, k),
                value_at(setting_order(setting), bad, k),
            ),
    ensures
        keyed_deltas(setting, good, bad, keys, n).len() == 0,
    decreases n,
{
    if n > 0 {
        lemma_no_keyed_deltas(setting, good, bad, keys, n - 1);
        let key = keys[n - 1].0;
        assert(same_setting(
            setting,
            value_at(setting_order(setting), good, key),
            value_at(setting_order(setting), bad, key),
        ));
    }
}

/// Two environments have no differences exactly when they agree in every compared setting.
pub proof fn law_no_delta_means_agreement(
    good: ControlledEnvironmentView,
    bad: ControlledEnvironmentView,
)
    requires
        is_ordered(good),
        is_ordered(bad),
    ensures
        environment_deltas(good, bad).len() == 0 <==> agree(good, bad),
{
    law_full_delta_reaches_the_other(good, bad);
    if agree(good, bad) {
        let left = good.source_file_overrides;
        let right = bad.source_file_overrides;
        lemma_no_keyed_deltas(
            KeyedSetting::Override,
            left,
            right,
            joint_entries(KeyedSetting::Override, left, right),
            joint_entries(KeyedSetting::Override, left, right).len() as int,
        );
        assert forall|k: Seq<char>| same_setting(
            KeyedSetting::Variable,
            #[trigger] value_at(Order::Text, good.environment, k),
            value_at(Order::Text, bad.environment, k),
        ) by {}
        lemma_no_keyed_deltas(
            KeyedSetting::Variable,
            good.environment,
            bad.environment,
            joint_entries(KeyedSetting::Variable, good.environment, bad.environment),
            joint_entries(KeyedSetting::Variable, good.environment, bad.environment).len() as int,
        );
        assert forall|k: Seq<char>| same_setting(
            KeyedSetting::Binding,
            #[trigger] value_at(Order::Text, good.toolchain_bindings, k),
            value_at(Order::Text, bad.toolchain_bindings, k),
        ) by {}
        lemma_no_keyed_deltas(
            KeyedSetting::Binding,
            good.toolchain_bindings,
            bad.toolchain_bindings,
            joint_entries(KeyedSetting::Binding, good.toolchain_bindings, bad.toolchain_bindings),
            joint_entries(
                KeyedSetting::Binding,
                good.toolchain_bindings,
                bad.toolchain_bindings,
            ).len() as int,
        );
    }
}

/// Two ordered maps with the same keys hold them at the same places.
proof fn lemma_same_keys(order: Order, a: Entries, b: Entries, n: int)
    requires
        increasing(order, a),
        increasing(order, b),
        forall|k: Seq<char>| #[trigger] has_key(order, a, k) == has_key(order, b, k),
        0 <= n <= a.len(),
    ensures
        n <= b.len(),
        forall|i: int|
            0 <= i < n ==> key_of(order, #[trigger] a[i].0) == key_of(order, b[i].0),
    decreases n,
{
    if n > 0 {
        lemma_same_keys(order, a, b, n - 1);
        let i = n - 1;
        let k = a[i].0;
        lemma_found(order, a, i, k);
        assert(has_key(order, a, k) == has_key(order, b, k));
        let p = place_of(order, b, k);
        lemma_place(order, b, k);
        lemma_before_irreflexive(key_of(order, k));
        if p < i {
            assert(key_of(order, a[p].0) == key_of(order, b[p].0));
            assert(before(key_of(order, a[p].0), key_of(order, a[i].0)));
        }
        if p > i {
            let z = b[i].0;
            lemma_found(order, b, i, z);
            assert(has_key(order, a, z) == has_key(order, b, z));
            let q = place_of(order, a, z);
            lemma_place(order, a, z);
            assert(before(key_of(order, b[i].0), key_of(order, b[p].0)));
            if q >= i {
                if q > i {
                    assert(before(key_of(order, a[i].0), key_of(order, a[q].0)));
                    lemma_before_transitive(key_of(order, k), key_of(order, z), key_of(order, k));
                }
            } else {
                assert(key_of(order, a[q].0) == key_of(order, b[q].0));
                assert(before(key_of(order, b[q].0), key_of(order, b[i].0)));
                lemma_before_irreflexive(key_of(order, z));
            }
            assert(false);
        }
    }
}

/// The keys of two maps together are the same, whichever comes first.
proof fn lemma_joint_keys(setting: KeyedSetting, good: Entries, bad: Entries)
    requires
        increasing(setting_order(setting), good),
        increasing(setting_order(setting), bad),
    ensures
        joint_entries(setting, good, bad).len() == joint_entries(setting, bad, good).len(),
        forall|i: int|
            0 <= i < joint_entries(setting, good, bad).len() ==> key_of(
                setting_order(setting),
                #[trigger] joint_entries(setting, good, bad)[i].0,
            ) == key_of(setting_order(setting), joint_entries(setting, bad, good)[i].0),
        spelled_alike(setting_order(setting), good, bad) ==> forall|i: int|
            0 <= i < joint_entries(setting, good, bad).len() ==> (
            #[trigger] joint_entries(setting, good, bad)[i]).0 == joint_entries(
                setting,
                bad,
                good,
            )[i].0,
{
    let order = setting_order(setting);
    let a = joint_entries(setting, good, bad);
    let b = joint_entries(setting, bad, good);
    lemma_entries_added(order, good, bad, bad.len() as int);
    lemma_entries_added(order, bad, good, good.len() as int);
    assert forall|k: Seq<char>| #[trigger] has_key(order, a, k) == has_key(order, b, k) by {
        lemma_key_listed(order, good, k);
        lemma_key_listed(order, bad, k);
        assert(value_at(order, a, k) is None <==> value_at(order, b, k) is None);
    }
    lemma_same_keys(order, a, b, a.len() as int);
    assert forall|k: Seq<char>| #[trigger] has_key(order, b, k) == has_key(order, a, k) by {
        assert(has_key(order, a, k) == has_key(order, b, k));
    }
    lemma_same_keys(order, b, a, b.len() as int);
    if spelled_alike(order, good, bad) {
        assert forall|i: int| 0 <= i < a.len() implies (#[trigger] a[i]).0 == b[i].0 by {
            lemma_added_keys(order, good, bad, bad.len() as int, i);
            lemma_added_keys(order, bad, good, good.len() as int, i);
            lemma_one_spelling(order, good, a[i].0, b[i].0);
            lemma_one_spelling(order, bad, a[i].0, b[i].0);
        }
    }
}

/// A key of two maps together is a key of one of them.
proof fn lemma_added_keys(order: Order, entries: Entries, added: Entries, n: int, i: int)
    requires
        increasing(order, entries),
        0 <= n <= added.len(),
        0 <= i < entries_added(order, entries, added, n).len(),
    ensures
        ({
            let k = entries_added(order, entries, added, n)[i].0;
            spells(entries, k) || spells(added, k)
        }),
    decreases n,
{
    if n > 0 {
        let earlier = entries_added(order, entries, added, n - 1);
        let key = added[n - 1].0;
        lemma_entries_added(order, entries, added, n - 1);
        lemma_place(order, earlier, key);
        let at = place_of(order, earlier, key);
        if has_key(order, earlier, key) {
            lemma_added_keys(order, entries, added, n - 1, i);
        } else if i < at {
            lemma_added_keys(order, entries, added, n - 1, i);
        } else if i > at {
            lemma_added_keys(order, entries, added, n - 1, i - 1);
        } else {
            assert(spells(added, key));
        }
    }
}

/// Whether a key stands in a map in this spelling.
pub open spec fn spells(entries: Entries, k: Seq<char>) -> bool {
    exists|i: int| 0 <= i < entries.len() && (#[trigger] entries[i]).0 == k
}

/// A map holds a key in one spelling.
proof fn lemma_one_spelling(order: Order, entries: Entries, k: Seq<char>, l: Seq<char>)
    requires
        increasing(order, entries),
        key_of(order, k) == key_of(order, l),
    ensures
        spells(entries, k) && spells(entries, l) ==> k == l,
{
    if spells(entries, k) && spells(entries, l) {
        let i = choose|i: int| 0 <= i < entries.len() && (#[trigger] entries[i]).0 == k;
        let j = choose|j: int| 0 <= j < entries.len() && (#[trigger] entries[j]).0 == l;
        lemma_found(order, entries, i, k);
        lemma_found(order, entries, j, k);
    }
}

proof fn lemma_key_listed(order: Order, entries: Entries, k: Seq<char>)
    requires
        increasing(order, entries),
    ensures
        value_at(order, entries, k) is None <==> forall|m: int|
            0 <= m < entries.len() ==> key_of(order, #[trigger] entries[m].0) != key_of(order, k),
{
    lemma_place(order, entries, k);
    if exists|m: int|
        0 <= m < entries.len() && key_of(order, #[trigger] entries[m].0) == key_of(order, k) {
        let m = choose|m: int|
            0 <= m < entries.len() && key_of(order, #[trigger] entries[m].0) == key_of(order, k);
        lemma_found(order, entries, m, k);
    }
}

/// Whether the keys that two maps share are spelled the same in both.
pub open spec fn spelled_alike(order: Order, a: Entries, b: Entries) -> bool {
    forall|i: int, j: int|
        0 <= i < a.len() && 0 <= j < b.len() && key_of(order, (#[trigger] a[i]).0) == key_of(
            order,
            (#[trigger] b[j]).0,
        ) ==> a[i].0 == b[j].0
}

/// Whether two differences say the same with their sides exchanged. Unless keys are spelled `alike`,
/// the name of a replaced file may be another spelling of the same path.
pub open spec fn mirrors(a: EnvironmentDeltaView, b: EnvironmentDeltaView, alike: bool) -> bool {
    &&& a.record.baseline_value == b.record.variant_value
    &&& a.record.variant_value == b.record.baseline_value
    &&& match (a.change, b.change) {
        (
            EnvironmentChangeView::SourceOverride(k, _),
            EnvironmentChangeView::SourceOverride(l, _),
        ) => {
            &&& is_same_path(k, l)
            &&& a.record.variable == "dependency:"@ + k
            &&& b.record.variable == "dependency:"@ + l
            &&& alike ==> k == l
        },
        _ => a.record.variable == b.record.variable,
    }
}

/// Whether two lists of differences mirror each other one by one.
pub open spec fn all_mirror(
    a: Seq<EnvironmentDeltaView>,
    b: Seq<EnvironmentDeltaView>,
    alike: bool,
) -> bool {
    a.len() == b.len() && forall|i: int| 0 <= i < a.len() ==> mirrors(#[trigger] a[i], b[i], alike)
}

proof fn lemma_mirror_concat(
    a: Seq<EnvironmentDeltaView>,
    b: Seq<EnvironmentDeltaView>,
    c: Seq<EnvironmentDeltaView>,
    d: Seq<EnvironmentDeltaView>,
    alike: bool,
)
    requires
        all_mirror(a, b, alike),
        all_mirror(c, d, alike),
    ensures
        all_mirror(a + c, b + d, alike),
{
    assert forall|i: int| 0 <= i < (a + c).len() implies mirrors(
        #[trigger] (a + c)[i],
        (b + d)[i],
        alike,
    ) by {
        if i < a.len() {
            assert(mirrors(a[i], b[i], alike));
        } else {
            assert(mirrors(c[i - a.len()], d[i - a.len()], alike));
        }
    }
}

proof fn lemma_mirror_keyed(
    setting: KeyedSetting,
    good: Entries,
    bad: Entries,
    keys: Entries,
    others: Entries,
    n: int,
    alike: bool,
)
    requires
        0 <= n <= keys.len(),
        keys.len() == others.len(),
        forall|i: int|
            0 <= i < keys.len() ==> key_of(setting_order(setting), #[trigger] keys[i].0) == key_of(
                setting_order(setting),
                others[i].0,
            ),
        alike ==> forall|i: int| 0 <= i < keys.len() ==> (#[trigger] keys[i]).0 == others[i].0,
    ensures
        all_mirror(
            keyed_deltas(setting, good, bad, keys, n),
            keyed_deltas(setting, bad, good, others, n),
            alike,
        ),
    decreases n,
{
    if n > 0 {
        lemma_mirror_keyed(setting, good, bad, keys, others, n - 1, alike);
        let order = setting_order(setting);
        let k = keys[n - 1].0;
        let l = others[n - 1].0;
        lemma_same_key(order, good, k, l);
        lemma_same_key(order, bad, k, l);
        if !(setting is Override) {
            lemma_text_key_injective(k, l);
        }
        let left = value_at(order, good, k);
        let right = value_at(order, bad, k);
        let absent = setting_absent(setting);
        lemma_mirror_concat(
            keyed_deltas(setting, good, bad, keys, n - 1),
            keyed_deltas(setting, bad, good, others, n - 1),
            delta_if(
                !same_setting(setting, left, right),
                delta_of(
                    setting_prefix(setting) + k,
                    shown(left, absent),
                    shown(right, absent),
                    setting_change(setting, k, right),
                ),
            ),
            delta_if(
                !same_setting(setting, right, left),
                delta_of(
                    setting_prefix(setting) + l,
                    shown(right, absent),
                    shown(left, absent),
                    setting_change(setting, l, left),
                ),
            ),
            alike,
        );
    }
}

proof fn lemma_mirror_setting(
    setting: KeyedSetting,
    good: ControlledEnvironmentView,
    bad: ControlledEnvironmentView,
    alike: bool,
)
    requires
        is_ordered(good),
        is_ordered(bad),
        setting is Override && alike ==> spelled_alike(
            Order::Path,
            good.source_file_overrides,
            bad.source_file_overrides,
        ),
    ensures
        all_mirror(setting_deltas(setting, good, bad), setting_deltas(setting, bad, good), alike),
{
    let left = setting_entries(setting, good);
    let right = setting_entries(setting, bad);
    if !(setting is Override) {
        assert forall|i: int, j: int|
            0 <= i < left.len() && 0 <= j < right.len() && key_of(
                Order::Text,
                (#[trigger] left[i]).0,
            ) == key_of(Order::Text, (#[trigger] right[j]).0) implies left[i].0 == right[j].0 by {
            lemma_text_key_injective(left[i].0, right[j].0);
        }
    }
    lemma_joint_keys(setting, left, right);
    let keys = joint_entries(setting, left, right);
    lemma_mirror_keyed(
        setting,
        left,
        right,
        keys,
        joint_entries(setting, right, left),
        keys.len() as int,
        alike,
    );
}

/// One difference and its mirror image.
proof fn lemma_mirror_step(
    a: Seq<EnvironmentDeltaView>,
    b: Seq<EnvironmentDeltaView>,
    differs: bool,
    there: EnvironmentDeltaView,
    back: EnvironmentDeltaView,
    alike: bool,
)
    requires
        all_mirror(a, b, alike),
        mirrors(there, back, alike),
    ensures
        all_mirror(a + delta_if(differs, there), b + delta_if(differs, back), alike),
{
    lemma_mirror_concat(a, b, delta_if(differs, there), delta_if(differs, back), alike);
}

proof fn lemma_mirror_leading(
    good: ControlledEnvironmentView,
    bad: ControlledEnvironmentView,
    alike: bool,
)
    ensures
        all_mirror(leading_deltas(good, bad), leading_deltas(bad, good), alike),
{
    let a0 = Seq::<EnvironmentDeltaView>::empty();
    let there = delta_of("build_image"@, shown(good.image_override, "<configured-base-image>"@), shown(bad.image_override, "<configured-base-image>"@), EnvironmentChangeView::ImageOverride(bad.image_override));
    let back = delta_of("build_image"@, shown(bad.image_override, "<configured-base-image>"@), shown(good.image_override, "<configured-base-image>"@), EnvironmentChangeView::ImageOverride(good.image_override));
    lemma_mirror_step(a0, a0, good.image_override != bad.image_override, there, back, alike);
    let a1 = a0 + delta_if(good.image_override != bad.image_override, there);
    let b1 = a0 + delta_if(good.image_override != bad.image_override, back);
    let there = delta_of("source_path"@, good.container_source_path, bad.container_source_path, EnvironmentChangeView::SourcePath(bad.container_source_path));
    let back = delta_of("source_path"@, bad.container_source_path, good.container_source_path, EnvironmentChangeView::SourcePath(good.container_source_path));
    lemma_mirror_step(a1, b1, good.container_source_path != bad.container_source_path, there, back, alike);
    let a2 = a1 + delta_if(good.container_source_path != bad.container_source_path, there);
    let b2 = b1 + delta_if(good.container_source_path != bad.container_source_path, back);
    let there = delta_of("build_path"@, good.container_work_path, bad.container_work_path, EnvironmentChangeView::BuildPath(bad.container_work_path));
    let back = delta_of("build_path"@, bad.container_work_path, good.container_work_path, EnvironmentChangeView::BuildPath(good.container_work_path));
    lemma_mirror_step(a2, b2, good.container_work_path != bad.container_work_path, there, back, alike);
    let a3 = a2 + delta_if(good.container_work_path != bad.container_work_path, there);
    let b3 = b2 + delta_if(good.container_work_path != bad.container_work_path, back);
    let there = delta_of("directory_order"@, copy_order_name(good.source_copy_order), copy_order_name(bad.source_copy_order), EnvironmentChangeView::SourceCopyOrder(bad.source_copy_order));
    let back = delta_of("directory_order"@, copy_order_name(bad.source_copy_order), copy_order_name(good.source_copy_order), EnvironmentChangeView::SourceCopyOrder(good.source_copy_order));
    lemma_mirror_step(a3, b3, good.source_copy_order != bad.source_copy_order, there, back, alike);
    let a4 = a3 + delta_if(good.source_copy_order != bad.source_copy_order, there);
    let b4 = b3 + delta_if(good.source_copy_order != bad.source_copy_order, back);
    assert(leading_deltas(good, bad) =~= a4);
    assert(leading_deltas(bad, good) =~= b4);
}

proof fn lemma_mirror_trailing(
    good: ControlledEnvironmentView,
    bad: ControlledEnvironmentView,
    alike: bool,
)
    ensures
        all_mirror(trailing_deltas(good, bad), trailing_deltas(bad, good), alike),
{
    let a0 = Seq::<EnvironmentDeltaView>::empty();
    let there = delta_of("hostname"@, shown(good.hostname, "<runtime-default>"@), shown(bad.hostname, "<runtime-default>"@), EnvironmentChangeView::Hostname(bad.hostname));
    let back = delta_of("hostname"@, shown(bad.hostname, "<runtime-default>"@), shown(good.hostname, "<runtime-default>"@), EnvironmentChangeView::Hostname(good.hostname));
    lemma_mirror_step(a0, a0, good.hostname != bad.hostname, there, back, alike);
    let a1 = a0 + delta_if(good.hostname != bad.hostname, there);
    let b1 = a0 + delta_if(good.hostname != bad.hostname, back);
    let there = delta_of("cpu_count"@, shown_count(good.cpu_count), shown_count(bad.cpu_count), EnvironmentChangeView::CpuCount(bad.cpu_count));
    let back = delta_of("cpu_count"@, shown_count(bad.cpu_count), shown_count(good.cpu_count), EnvironmentChangeView::CpuCount(good.cpu_count));
    lemma_mirror_step(a1, b1, good.cpu_count != bad.cpu_count, there, back, alike);
    let a2 = a1 + delta_if(good.cpu_count != bad.cpu_count, there);
    let b2 = b1 + delta_if(good.cpu_count != bad.cpu_count, back);
    let there = delta_of("source_mtime"@, shown_epoch(good.source_mtime_epoch), shown_epoch(bad.source_mtime_epoch), EnvironmentChangeView::SourceMtime(bad.source_mtime_epoch));
    let back = delta_of("source_mtime"@, shown_epoch(bad.source_mtime_epoch), shown_epoch(good.source_mtime_epoch), EnvironmentChangeView::SourceMtime(good.source_mtime_epoch));
    lemma_mirror_step(a2, b2, good.source_mtime_epoch != bad.source_mtime_epoch, there, back, alike);
    let a3 = a2 + delta_if(good.source_mtime_epoch != bad.source_mtime_epoch, there);
    let b3 = b2 + delta_if(good.source_mtime_epoch != bad.source_mtime_epoch, back);
    let there = delta_of("umask"@, shown_mask(good.umask), shown_mask(bad.umask), EnvironmentChangeView::Umask(bad.umask));
    let back = delta_of("umask"@, shown_mask(bad.umask), shown_mask(good.umask), EnvironmentChangeView::Umask(good.umask));
    lemma_mirror_step(a3, b3, good.umask != bad.umask, there, back, alike);
    let a4 = a3 + delta_if(good.umask != bad.umask, there);
    let b4 = b3 + delta_if(good.umask != bad.umask, back);
    let there = delta_of("network_access"@, good.network_mode, bad.network_mode, EnvironmentChangeView::NetworkMode(bad.network_mode));
    let back = delta_of("network_access"@, bad.network_mode, good.network_mode, EnvironmentChangeView::NetworkMode(good.network_mode));
    lemma_mirror_step(a4, b4, good.network_mode != bad.network_mode, there, back, alike);
    let a5 = a4 + delta_if(good.network_mode != bad.network_mode, there);
    let b5 = b4 + delta_if(good.network_mode != bad.network_mode, back);
    assert(trailing_deltas(good, bad) =~= a5);
    assert(trailing_deltas(bad, good) =~= b5);
}

/// Comparing two environments the other way round gives the same differences in the same order,
/// each with its two values exchanged. The names are the same too, unless both environments replace
/// a file under different spellings of its path.
pub proof fn law_swapped_environments_swap_values(
    good: ControlledEnvironmentView,
    bad: ControlledEnvironmentView,
)
    requires
        is_ordered(good),
        is_ordered(bad),
    ensures
        all_mirror(
            environment_deltas(good, bad),
            environment_deltas(bad, good),
            spelled_alike(Order::Path, good.source_file_overrides, bad.source_file_overrides),
        ),
        spelled_alike(Order::Path, good.source_file_overrides, bad.source_file_overrides)
            ==> forall|i: int|
            0 <= i < environment_deltas(good, bad).len() ==> (#[trigger] environment_deltas(
                good,
                bad,
            )[i]).record.variable == environment_deltas(bad, good)[i].record.variable,
{
    let alike = spelled_alike(Order::Path, good.source_file_overrides, bad.source_file_overrides);
    lemma_mirror_setting(KeyedSetting::Variable, good, bad, alike);
    lemma_mirror_setting(KeyedSetting::Binding, good, bad, alike);
    lemma_mirror_setting(KeyedSetting::Override, good, bad, alike);
    let lead = leading_deltas(good, bad);
    let dael = leading_deltas(bad, good);
    lemma_mirror_leading(good, bad, alike);
    let trail = trailing_deltas(good, bad);
    let liart = trailing_deltas(bad, good);
    lemma_mirror_trailing(good, bad, alike);
    let v = setting_deltas(KeyedSetting::Variable, good, bad);
    let w = setting_deltas(KeyedSetting::Variable, bad, good);
    lemma_mirror_concat(lead, dael, v, w, alike);
    let b = setting_deltas(KeyedSetting::Binding, good, bad);
    let c = setting_deltas(KeyedSetting::Binding, bad, good);
    lemma_mirror_concat(lead + v, dael + w, b, c, alike);
    let o = setting_deltas(KeyedSetting::Override, good, bad);
    let p = setting_deltas(KeyedSetting::Override, bad, good);
    lemma_mirror_concat(lead + v + b, dael + w + c, o, p, alike);
    lemma_mirror_concat(lead + v + b + o, dael + w + c + p, trail, liart, alike);
    let there = environment_deltas(good, bad);
    let back = environment_deltas(bad, good);
    assert forall|i: int| 0 <= i < there.len() && alike implies (
    #[trigger] there[i]).record.variable == back[i].record.variable by {
        assert(mirrors(there[i], back[i], alike));
    }
}

/// Applying a selection of differences leaves alone every setting that none of them changes.
pub proof fn law_subset_changes_only_what_it_selects(
    e: ControlledEnvironmentView,
    subset: Seq<EnvironmentDeltaView>,
    n: int,
    k: Seq<char>,
)
    requires
        is_ordered(e),
        0 <= n <= subset.len(),
    ensures
        ({
            let after = changed_by_all(e, subset, n);
            &&& is_ordered(after)
            &&& (forall|i: int| 0 <= i < n ==> !((#[trigger] subset[i]).change is ImageOverride))
                ==> after.image_override == e.image_override
            &&& (forall|i: int| 0 <= i < n ==> !((#[trigger] subset[i]).change is SourcePath))
                ==> after.container_source_path == e.container_source_path
            &&& (forall|i: int| 0 <= i < n ==> !((#[trigger] subset[i]).change is BuildPath))
                ==> after.container_work_path == e.container_work_path
            &&& (forall|i: int| 0 <= i < n ==> !((#[trigger] subset[i]).change is SourceCopyOrder))
                ==> after.source_copy_order == e.source_copy_order
            &&& (forall|i: int|
                0 <= i < n ==> !((#[trigger] subset[i]).change matches EnvironmentChangeView::EnvironmentVariable(
                    key,
                    _,
                ) && key == k)) ==> value_at(Order::Text, after.environment, k) == value_at(
                Order::Text,
                e.environment,
                k,
            )
            &&& (forall|i: int|
                0 <= i < n ==> !((#[trigger] subset[i]).change matches EnvironmentChangeView::ToolchainBinding(
                    key,
                    _,
                ) && key == k)) ==> value_at(Order::Text, after.toolchain_bindings, k) == value_at(
                Order::Text,
                e.toolchain_bindings,
                k,
            )
            &&& (forall|i: int|
                0 <= i < n ==> !((#[trigger] subset[i]).change matches EnvironmentChangeView::SourceOverride(
                    key,
                    _,
                ) && is_same_path(key, k))) ==> value_at(
                Order::Path,
                after.source_file_overrides,
                k,
            ) == value_at(Order::Path, e.source_file_overrides, k)
            &&& (forall|i: int| 0 <= i < n ==> !((#[trigger] subset[i]).change is Hostname))
                ==> after.hostname == e.hostname
            &&& (forall|i: int| 0 <= i < n ==> !((#[trigger] subset[i]).change is CpuCount))
                ==> after.cpu_count == e.cpu_count
            &&& (forall|i: int| 0 <= i < n ==> !((#[trigger] subset[i]).change is SourceMtime))
                ==> after.source_mtime_epoch == e.source_mtime_epoch
            &&& (forall|i: int| 0 <= i < n ==> !((#[trigger] subset[i]).change is Umask))
                ==> after.umask == e.umask
            &&& (forall|i: int| 0 <= i < n ==> !((#[trigger] subset[i]).change is NetworkMode))
                ==> after.network_mode == e.network_mode
        }),
    decreases n,
{
    if n > 0 {
        law_subset_changes_only_what_it_selects(e, subset, n - 1, k);
        let before = changed_by_all(e, subset, n - 1);
        match subset[n - 1].change {
            EnvironmentChangeView::EnvironmentVariable(key, value) => {
                lemma_text_key_injective(key, k);
                match value {
                    Some(v) => lemma_with_entry(Order::Text, before.environment, key, v),
                    None => lemma_without_entry(Order::Text, before.environment, key),
                }
            },
            EnvironmentChangeView::ToolchainBinding(key, value) => {
                lemma_text_key_injective(key, k);
                match value {
                    Some(v) => lemma_with_entry(Order::Text, before.toolchain_bindings, key, v),
                    None => lemma_without_entry(Order::Text, before.toolchain_bindings, key),
                }
            },
            EnvironmentChangeView::SourceOverride(key, value) => {
                match value {
                    Some(v) => lemma_with_entry(Order::Path, before.source_file_overrides, key, v),
                    None => lemma_without_entry(Order::Path, before.source_file_overrides, key),
                }
            },
            _ => {},
        }
    }
}

} // verus!
