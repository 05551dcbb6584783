use vstd::prelude::*;

use crate::text::str_eq;

verus! {

/// One section of a platform configuration file: its name and its
/// key-value entries, in file order.
pub struct IniSection {
    pub name: String,
    pub entries: Vec<(String, String)>,
}

/// A platform configuration file as plain values: its sections in file
/// order.  The caller parses the file into this form.
pub struct IniDoc {
    pub sections: Vec<IniSection>,
}

/// The value the first matching entry gives a key, scanning front to back.
pub open spec fn entries_lookup(es: Seq<(Seq<char>, Seq<char>)>, key: Seq<char>) -> Option<
    Seq<char>,
>
    decreases es.len(),
{
    if es.len() == 0 {
        Option::None
    } else if es[0].0 == key {
        Option::Some(es[0].1)
    } else {
        entries_lookup(es.drop_first(), key)
    }
}

/// The value a configuration document gives a key in a named section: the
/// first section with that name whose entries hold the key wins.
pub open spec fn ini_lookup(doc: Seq<IniSection>, section: Seq<char>, key: Seq<char>) -> Option<
    Seq<char>,
>
    decreases doc.len(),
{
    if doc.len() == 0 {
        Option::None
    } else if doc[0].name@ == section && !(entries_lookup(
        crate::flat_key_values::pair_views(doc[0].entries@),
        key,
    ) is None) {
        entries_lookup(crate::flat_key_values::pair_views(doc[0].entries@), key)
    } else {
        ini_lookup(doc.drop_first(), section, key)
    }
}

/// Looks a key up in the entries of one section.
fn entries_lookup_exec(es: &Vec<(String, String)>, key: &str) -> (r: Option<String>)
    ensures
        match r {
            Some(v) => entries_lookup(crate::flat_key_values::pair_views(es@), key@) == Some(v@),
            None => entries_lookup(crate::flat_key_values::pair_views(es@), key@) is None,
        },
{
    let ghost ps = crate::flat_key_values::pair_views(es@);
    let mut i: usize = 0;
    proof {
        assert(ps.skip(0) =~= ps);
    }
    while i < es.len()
        invariant
            i <= es.len(),
            ps == crate::flat_key_values::pair_views(es@),
            ps.len() == es.len(),
            entries_lookup(ps, key@) == entries_lookup(ps.skip(i as int), key@),
        decreases es.len() - i,
    {
        let ghost rest = ps.skip(i as int);
        proof {
            assert(rest[0] == ps[i as int]);
            assert(ps[i as int] == (es@[i as int].0@, es@[i as int].1@));
            assert(rest.drop_first() =~= ps.skip(i + 1));
        }
        if str_eq(es[i].0.as_str(), key) {
            return Some(es[i].1.clone());
        }
        i = i + 1;
    }
    proof {
        assert(ps.skip(i as int) =~= Seq::<(Seq<char>, Seq<char>)>::empty());
    }
    None
}

impl IniDoc {
    /// Looks a key up in a named section, as `ini_lookup` describes.
    pub fn get_from(&self, section: &str, key: &str) -> (r: Option<String>)
        ensures
            match r {
                Some(v) => ini_lookup(self.sections@, section@, key@) == Some(v@),
                None => ini_lookup(self.sections@, section@, key@) is None,
            },
    {
        let mut i: usize = 0;
        proof {
            assert(self.sections@.skip(0) =~= self.sections@);
        }
        while i < self.sections.len()
            invariant
                i <= self.sections.len(),
                ini_lookup(self.sections@, section@, key@) == ini_lookup(
                    self.sections@.skip(i as int),
                    section@,
                    key@,
                ),
            decreases self.sections.len() - i,
        {
            let ghost rest = self.sections@.skip(i as int);
            proof {
                assert(rest[0] == self.sections@[i as int]);
                assert(rest.drop_first() =~= self.sections@.skip(i + 1));
            }
            if str_eq(self.sections[i].name.as_str(), section) {
                match entries_lookup_exec(&self.sections[i].entries, key) {
                    Some(v) => {
                        return Some(v);
                    },
                    None => {},
                }
            }
            i = i + 1;
        }
        proof {
            assert(self.sections@.skip(i as int) =~= Seq::<IniSection>::empty());
        }
        None
    }
}

/// The configuration extracted for one system type.
#[derive(Debug, Clone)]
pub struct SysTypeConfig {
    pub target_chip: String,
    pub partition_table_file: String,
    pub sdkconfig_defaults_file: String,
}

/// An optional value, or the fallback.
pub open spec fn value_or(v: Option<Seq<char>>, fallback: Seq<char>) -> Seq<char> {
    match v {
        Option::Some(x) => x,
        Option::None => fallback,
    }
}

/// The section consulted for one system type: `env:<sys type>`.
pub open spec fn systype_section(sys_type: Seq<char>) -> Seq<char> {
    "env:"@ + sys_type
}

/// The default-configuration file used for a system type when the platform
/// file names none: the system type's own file if it exists, else the
/// shared one.
pub open spec fn fallback_sdkconfig(sys_type: Seq<char>, own_file_exists: bool) -> Seq<char> {
    if own_file_exists {
        "systypes/"@ + sys_type + "/sdkconfig.defaults"@
    } else {
        "systypes/Common/sdkconfig.defaults"@
    }
}

/// Extracts the configuration of one system type from the platform file:
/// each value is read from the system type's own section first, then from
/// the common section; the default-configuration file falls back to a
/// conventional path chosen by whether the system type's own file exists.
/// With no readable platform file every value is empty.
pub fn systype_config_extract_systype_info(
    sys_type: String,
    platform_ini: Option<&IniDoc>,
    own_sdkconfig_exists: bool,
) -> (r: SysTypeConfig)
    ensures
        match platform_ini {
            Option::Some(doc) => {
                &&& r.target_chip@ == value_or(
                    ini_lookup(doc.sections@, systype_section(sys_type@), "target_chip"@),
                    value_or(ini_lookup(doc.sections@, "env"@, "target_chip"@), Seq::empty()),
                )
                &&& r.partition_table_file@ == value_or(
                    ini_lookup(
                        doc.sections@,
                        systype_section(sys_type@),
                        "board_build.partitions"@,
                    ),
                    value_or(
                        ini_lookup(doc.sections@, "env"@, "board_build.partitions"@),
                        Seq::empty(),
                    ),
                )
                &&& r.sdkconfig_defaults_file@ == value_or(
                    ini_lookup(
                        doc.sections@,
                        systype_section(sys_type@),
                        "sdkconfig_defaults"@,
                    ),
                    value_or(
                        ini_lookup(doc.sections@, "env"@, "sdkconfig_defaults"@),
                        fallback_sdkconfig(sys_type@, own_sdkconfig_exists),
                    ),
                )
            },
            Option::None => {
                &&& r.target_chip@ == Seq::<char>::empty()
                &&& r.partition_table_file@ == Seq::<char>::empty()
                &&& r.sdkconfig_defaults_file@ == Seq::<char>::empty()
            },
        },
{
    let mut config = SysTypeConfig {
        target_chip: String::new(),
        partition_table_file: String::new(),
        sdkconfig_defaults_file: String::new(),
    };
    let doc = match platform_ini {
        Option::Some(doc) => doc,
        Option::None => {
            return config;
        },
    };
    let mut section = "env:".to_owned();
    section.append(sys_type.as_str());
    assert(section@ == systype_section(sys_type@));

    config.target_chip = match doc.get_from(section.as_str(), "target_chip") {
        Some(v) => v,
        None => match doc.get_from("env", "target_chip") {
            Some(v) => v,
            None => String::new(),
        },
    };

    config.partition_table_file = match doc.get_from(section.as_str(), "board_build.partitions") {
        Some(v) => v,
        None => match doc.get_from("env", "board_build.partitions") {
            Some(v) => v,
            None => String::new(),
        },
    };

    config.sdkconfig_defaults_file = match doc.get_from(section.as_str(), "sdkconfig_defaults") {
        Some(v) => v,
        None => match doc.get_from("env", "sdkconfig_defaults") {
            Some(v) => v,
            None => {
                if own_sdkconfig_exists {
                    let mut path = "systypes/".to_owned();
                    path.append(sys_type.as_str());
                    path.append("/sdkconfig.defaults");
                    path
                } else {
                    "systypes/Common/sdkconfig.defaults".to_owned()
                }
            },
        },
    };

    config
}

} // verus!
