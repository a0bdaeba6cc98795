//! The transform's configuration, and the literal that overrides it at a call site.
use vstd::prelude::*;

verus! {

/// The placeholder used when none is configured.
pub open spec fn default_placeholder() -> Seq<char> {
    "!TAGGED_MD_INTERPOLATION_PLACEHOLDER!"@
}

/// The marker that stands for each hole while the literal text is converted.
pub fn default_interpolation_placeholder() -> (r: String)
    ensures
        r@ == default_placeholder(),
{
    "!TAGGED_MD_INTERPOLATION_PLACEHOLDER!".to_owned()
}

/// What a configuration holds.
pub struct ConfigModel {
    pub placeholder: Seq<char>,
    pub gfm: bool,
}

pub struct PluginConfig {
    pub interpolation_placeholder: String,
    pub gfm: bool,
}

impl View for PluginConfig {
    type V = ConfigModel;

    open spec fn view(&self) -> ConfigModel {
        ConfigModel { placeholder: self.interpolation_placeholder@, gfm: self.gfm }
    }
}

impl Clone for PluginConfig {
    fn clone(&self) -> (r: Self)
        ensures
            r@ == self@,
    {
        PluginConfig { interpolation_placeholder: self.interpolation_placeholder.clone(), gfm: self.gfm }
    }
}

impl Default for PluginConfig {
    fn default() -> (r: Self)
        ensures
            r@ == (ConfigModel { placeholder: default_placeholder(), gfm: false }),
    {
        PluginConfig { interpolation_placeholder: default_interpolation_placeholder(), gfm: false }
    }
}

/// The key of a property in an object literal.
pub enum PropKey {
    /// A bare identifier key: `gfm`.
    Ident(String),
    /// A string key: `"gfm"`.
    Str(String),
    /// A computed, numeric or other key, whose text is not known statically.
    Other,
}

/// The value of a property, as far as the configuration literal cares.
pub enum PropValue {
    /// A string literal.
    Str(String),
    /// A boolean literal.
    Bool(bool),
    /// Some other literal (a number, `null`, a regular expression).
    OtherLit,
    /// An expression that is not a literal.
    NonLit,
}

/// One entry of an object literal.
pub enum PropOrSpread {
    /// `key: value`.
    KeyValue(PropKey, PropValue),
    /// A shorthand, method, getter or setter.
    OtherProp,
    /// `...rest`.
    Spread,
}

/// The argument of a call-style tag.
pub enum ConfigExpr {
    Object(Vec<PropOrSpread>),
    /// Any expression that is not an object literal.
    Other,
}

/// Why a configuration literal was refused.
#[derive(PartialEq, Eq, Structural, Clone, Copy, Debug)]
pub enum ConfigError {
    NonStaticKey,
    ExpectedStringPlaceholder,
    ExpectedBooleanGfm,
    UnknownKey,
    NotKeyValue,
    Spread,
    NotAnObject,
}

/// The text with which each refusal is reported.
pub open spec fn config_message(e: ConfigError) -> Seq<char> {
    match e {
        ConfigError::NonStaticKey => "Only static string keys are supported in the config literal."@,
        ConfigError::ExpectedStringPlaceholder => "Expected a string literal for the `interpolationPlaceholder` config."@,
        ConfigError::ExpectedBooleanGfm => "Expected a boolean literal for the `gfm` config."@,
        ConfigError::UnknownKey => "Unknown key in the config literal."@,
        ConfigError::NotKeyValue => "Only key-value properties are supported in the config literal."@,
        ConfigError::Spread => "Spreads in the config literal are not supported."@,
        ConfigError::NotAnObject => "Expected an object literal."@,
    }
}

impl ConfigError {
    pub fn message(&self) -> (r: String)
        ensures
            r@ == config_message(*self),
    {
        match self {
            ConfigError::NonStaticKey => "Only static string keys are supported in the config literal.".to_owned(),
            ConfigError::ExpectedStringPlaceholder => "Expected a string literal for the `interpolationPlaceholder` config.".to_owned(),
            ConfigError::ExpectedBooleanGfm => "Expected a boolean literal for the `gfm` config.".to_owned(),
            ConfigError::UnknownKey => "Unknown key in the config literal.".to_owned(),
            ConfigError::NotKeyValue => "Only key-value properties are supported in the config literal.".to_owned(),
            ConfigError::Spread => "Spreads in the config literal are not supported.".to_owned(),
            ConfigError::NotAnObject => "Expected an object literal.".to_owned(),
        }
    }
}

pub open spec fn placeholder_key() -> Seq<char> {
    "interpolationPlaceholder"@
}

pub open spec fn gfm_key() -> Seq<char> {
    "gfm"@
}

/// The text of a key, where it is known statically.
pub open spec fn key_text(k: PropKey) -> Option<Seq<char>> {
    match k {
        PropKey::Ident(s) => Some(s@),
        PropKey::Str(s) => Some(s@),
        PropKey::Other => None,
    }
}

/// One entry laid over a configuration.
pub open spec fn apply_prop(c: ConfigModel, prop: PropOrSpread) -> Result<ConfigModel, ConfigError> {
    match prop {
        PropOrSpread::KeyValue(k, v) => match key_text(k) {
            None => Err(ConfigError::NonStaticKey),
            Some(key) => if key == placeholder_key() {
                match v {
                    PropValue::Str(s) => Ok(ConfigModel { placeholder: s@, ..c }),
                    _ => Err(ConfigError::ExpectedStringPlaceholder),
                }
            } else if key == gfm_key() {
                match v {
                    PropValue::Bool(b) => Ok(ConfigModel { gfm: b, ..c }),
                    _ => Err(ConfigError::ExpectedBooleanGfm),
                }
            } else {
                Err(ConfigError::UnknownKey)
            },
        },
        PropOrSpread::OtherProp => Err(ConfigError::NotKeyValue),
        PropOrSpread::Spread => Err(ConfigError::Spread),
    }
}

/// The entries laid over `c` in order; the first one refused decides the error.
pub open spec fn apply_props(c: ConfigModel, props: Seq<PropOrSpread>) -> Result<ConfigModel, ConfigError>
    decreases props.len(),
{
    if props.len() == 0 {
        Ok(c)
    } else {
        match apply_prop(c, props[0]) {
            Err(e) => Err(e),
            Ok(next) => apply_props(next, props.drop_first()),
        }
    }
}

/// A configuration literal laid over `base`: its fields override, the others are kept.
pub open spec fn overlay_spec(base: ConfigModel, e: ConfigExpr) -> Result<ConfigModel, ConfigError> {
    match e {
        ConfigExpr::Object(props) => apply_props(base, props@),
        ConfigExpr::Other => Err(ConfigError::NotAnObject),
    }
}

impl PluginConfig {
    /// This configuration with the fields of the literal `ast` laid over it.
    pub fn overlay(&self, ast: &ConfigExpr) -> (r: Result<PluginConfig, ConfigError>)
        ensures
            match overlay_spec(self@, *ast) {
                Ok(c) => r matches Ok(rc) && rc@ == c,
                Err(e) => r == Err::<PluginConfig, ConfigError>(e),
            },
    {
        let props = match ast {
            ConfigExpr::Object(props) => props,
            ConfigExpr::Other => {
                return Err(ConfigError::NotAnObject);
            },
        };
        let mut cur = self.clone();
        let mut k: usize = 0;
        let placeholder_name = "interpolationPlaceholder".to_owned();
        let gfm_name = "gfm".to_owned();
        assert(props@.skip(0) =~= props@);
        while k < props.len()
            invariant
                k <= props.len(),
                placeholder_name@ == placeholder_key(),
                gfm_name@ == gfm_key(),
                overlay_spec(self@, *ast) == apply_props(cur@, props@.skip(k as int)),
            decreases props.len() - k,
        {
            proof {
                assert(props@.skip(k as int)[0] == props@[k as int]);
                assert(props@.skip(k as int).drop_first() =~= props@.skip(k + 1));
            }
            match &props[k] {
                PropOrSpread::KeyValue(key, value) => {
                    let name = match key {
                        PropKey::Ident(s) => s,
                        PropKey::Str(s) => s,
                        PropKey::Other => {
                            return Err(ConfigError::NonStaticKey);
                        },
                    };
                    if *name == placeholder_name {
                        match value {
                            PropValue::Str(s) => {
                                cur.interpolation_placeholder = s.clone();
                            },
                            _ => {
                                return Err(ConfigError::ExpectedStringPlaceholder);
                            },
                        }
                    } else if *name == gfm_name {
                        match value {
                            PropValue::Bool(b) => {
                                cur.gfm = *b;
                            },
                            _ => {
                                return Err(ConfigError::ExpectedBooleanGfm);
                            },
                        }
                    } else {
                        return Err(ConfigError::UnknownKey);
                    }
                },
                PropOrSpread::OtherProp => {
                    return Err(ConfigError::NotKeyValue);
                },
                PropOrSpread::Spread => {
                    return Err(ConfigError::Spread);
                },
            }
            k = k + 1;
        }
        Ok(cur)
    }

    /// The default configuration with the fields of the literal `ast` laid over it.
    pub fn try_from_ast(ast: &ConfigExpr) -> (r: Result<PluginConfig, ConfigError>)
        ensures
            match overlay_spec(ConfigModel { placeholder: default_placeholder(), gfm: false }, *ast) {
                Ok(c) => r matches Ok(rc) && rc@ == c,
                Err(e) => r == Err::<PluginConfig, ConfigError>(e),
            },
    {
        PluginConfig::default().overlay(ast)
    }
}

} // verus!
