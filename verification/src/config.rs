use vstd::prelude::*;

verus! {


/// Gearbox of a player's car.
#[derive(Clone, Copy, Debug, PartialEq, Eq, Structural)]
pub enum Transmission {
    Manual,
    Automatic,
}

impl Transmission {
    /// The option that follows `self` in the menu.
    pub open spec fn succ(self) -> Self {
        match self {
            Transmission::Manual => Transmission::Automatic,
            Transmission::Automatic => Transmission::Manual,
        }
    }

    /// The number the game stores for this option.
    pub open spec fn spec_code(self) -> u16 {
        match self {
            Transmission::Manual => 0,
            Transmission::Automatic => 1,
        }
    }

    /// Cycles to the next option, as the menu does on a click.
    pub fn next(&self) -> (r: Self)
        ensures
            r == self.succ(),
    {
        match self {
            Transmission::Manual => Transmission::Automatic,
            Transmission::Automatic => Transmission::Manual,
        }
    }

    /// The number the game stores for this option.
    pub fn code(&self) -> (r: u16)
        ensures
            r == self.spec_code(),
    {
        match self {
            Transmission::Manual => 0,
            Transmission::Automatic => 1,
        }
    }
}


/// How a player accelerates: by a button or by pushing the joystick.
#[derive(Clone, Copy, Debug, PartialEq, Eq, Structural)]
pub enum Acceleration {
    Button,
    Joystick,
}

impl Acceleration {
    /// The option that follows `self` in the menu.
    pub open spec fn succ(self) -> Self {
        match self {
            Acceleration::Button => Acceleration::Joystick,
            Acceleration::Joystick => Acceleration::Button,
        }
    }

    /// The number the game stores for this option.
    pub open spec fn spec_code(self) -> u16 {
        match self {
            Acceleration::Button => 0,
            Acceleration::Joystick => 1,
        }
    }

    /// Cycles to the next option, as the menu does on a click.
    pub fn next(&self) -> (r: Self)
        ensures
            r == self.succ(),
    {
        match self {
            Acceleration::Button => Acceleration::Joystick,
            Acceleration::Joystick => Acceleration::Button,
        }
    }

    /// The number the game stores for this option.
    pub fn code(&self) -> (r: u16)
        ensures
            r == self.spec_code(),
    {
        match self {
            Acceleration::Button => 0,
            Acceleration::Joystick => 1,
        }
    }
}


/// Kind of race: against the clock or against other cars.
#[derive(Clone, Copy, Debug, PartialEq, Eq, Structural)]
pub enum Race {
    TimeLimit,
    Competition,
}

impl Race {
    /// The option that follows `self` in the menu.
    pub open spec fn succ(self) -> Self {
        match self {
            Race::TimeLimit => Race::Competition,
            Race::Competition => Race::TimeLimit,
        }
    }

    /// The number the game stores for this option.
    pub open spec fn spec_code(self) -> u16 {
        match self {
            Race::TimeLimit => 0,
            Race::Competition => 1,
        }
    }

    /// Cycles to the next option, as the menu does on a click.
    pub fn next(&self) -> (r: Self)
        ensures
            r == self.succ(),
    {
        match self {
            Race::TimeLimit => Race::Competition,
            Race::Competition => Race::TimeLimit,
        }
    }

    /// The number the game stores for this option.
    pub fn code(&self) -> (r: u16)
        ensures
            r == self.spec_code(),
    {
        match self {
            Race::TimeLimit => 0,
            Race::Competition => 1,
        }
    }
}


/// Course selection of the main menu.
#[derive(Clone, Copy, Debug, PartialEq, Eq, Structural)]
pub enum Course {
    T1,
    T2,
    T3,
    Circular,
    Unknown,
}

impl Course {
    /// The option that follows `self` in the menu.
    pub open spec fn succ(self) -> Self {
        match self {
            Course::T1 => Course::T2,
            Course::T2 => Course::T3,
            Course::T3 => Course::Circular,
            Course::Circular => Course::Unknown,
            Course::Unknown => Course::T1,
        }
    }

    /// The number the game stores for this option.
    pub open spec fn spec_code(self) -> u16 {
        match self {
            Course::T1 => 0,
            Course::T2 => 1,
            Course::T3 => 2,
            Course::Circular => 3,
            Course::Unknown => 4,
        }
    }

    /// Cycles to the next option, as the menu does on a click.
    pub fn next(&self) -> (r: Self)
        ensures
            r == self.succ(),
    {
        match self {
            Course::T1 => Course::T2,
            Course::T2 => Course::T3,
            Course::T3 => Course::Circular,
            Course::Circular => Course::Unknown,
            Course::Unknown => Course::T1,
        }
    }

    /// The number the game stores for this option.
    pub fn code(&self) -> (r: u16)
        ensures
            r == self.spec_code(),
    {
        match self {
            Course::T1 => 0,
            Course::T2 => 1,
            Course::T3 => 2,
            Course::Circular => 3,
            Course::Unknown => 4,
        }
    }
}


/// Car model.
#[derive(Clone, Copy, Debug, PartialEq, Eq, Structural)]
pub enum Model {
    Esprit,
    Elan,
    M200,
}

impl Model {
    /// The option that follows `self` in the menu.
    pub open spec fn succ(self) -> Self {
        match self {
            Model::Esprit => Model::Elan,
            Model::Elan => Model::M200,
            Model::M200 => Model::Esprit,
        }
    }

    /// The number the game stores for this option.
    pub open spec fn spec_code(self) -> u16 {
        match self {
            Model::Esprit => 0,
            Model::Elan => 1,
            Model::M200 => 2,
        }
    }

    /// The option that precedes `self` in the menu.
    pub open spec fn pred(self) -> Self {
        match self {
            Model::Esprit => Model::M200,
            Model::Elan => Model::Esprit,
            Model::M200 => Model::Elan,
        }
    }

    /// Cycles to the previous car.
    pub fn prev(&self) -> (r: Self)
        ensures
            r == self.pred(),
    {
        match self {
            Model::Esprit => Model::M200,
            Model::Elan => Model::Esprit,
            Model::M200 => Model::Elan,
        }
    }

    /// Cycles to the next option, as the menu does on a click.
    pub fn next(&self) -> (r: Self)
        ensures
            r == self.succ(),
    {
        match self {
            Model::Esprit => Model::Elan,
            Model::Elan => Model::M200,
            Model::M200 => Model::Esprit,
        }
    }

    /// The number the game stores for this option.
    pub fn code(&self) -> (r: u16)
        ensures
            r == self.spec_code(),
    {
        match self {
            Model::Esprit => 0,
            Model::Elan => 1,
            Model::M200 => 2,
        }
    }
}


/// Sound device.
#[derive(Clone, Copy, Debug, PartialEq, Eq, Structural)]
pub enum SoundSettings {
    Adlib,
    SoundBlaster,
    PcSpeaker,
    Off,
}

impl SoundSettings {
    /// The number the game stores for this option.
    pub open spec fn spec_code(self) -> u16 {
        match self {
            SoundSettings::Adlib => 1,
            SoundSettings::SoundBlaster => 2,
            SoundSettings::PcSpeaker => 3,
            SoundSettings::Off => 4,
        }
    }

    /// The number the game stores for this option.
    pub fn code(&self) -> (r: u16)
        ensures
            r == self.spec_code(),
    {
        match self {
            SoundSettings::Adlib => 1,
            SoundSettings::SoundBlaster => 2,
            SoundSettings::PcSpeaker => 3,
            SoundSettings::Off => 4,
        }
    }
}


/// Car model as the high-score table stores it.
#[derive(Clone, Copy, Debug, PartialEq, Eq, Structural)]
pub enum ScoreModel {
    Esprit,
    Elan,
    M200,
}

impl ScoreModel {
    /// The number the game stores for this option.
    pub open spec fn spec_code(self) -> u16 {
        match self {
            ScoreModel::Esprit => 0,
            ScoreModel::Elan => 64,
            ScoreModel::M200 => 128,
        }
    }

    /// The number the game stores for this option.
    pub fn code(&self) -> (r: u16)
        ensures
            r == self.spec_code(),
    {
        match self {
            ScoreModel::Esprit => 0,
            ScoreModel::Elan => 64,
            ScoreModel::M200 => 128,
        }
    }
}


/// Input device of a player.
#[derive(Clone, Copy, Debug, PartialEq, Eq, Structural)]
pub enum Controls {
    Keyboard,
    Joystick,
    Mouse,
}

impl Controls {
    /// The number the game stores for this option.
    pub open spec fn spec_code(self) -> u16 {
        match self {
            Controls::Keyboard => 0,
            Controls::Joystick => 1,
            Controls::Mouse => 2,
        }
    }

    /// The number the game stores for this option.
    pub fn code(&self) -> (r: u16)
        ensures
            r == self.spec_code(),
    {
        match self {
            Controls::Keyboard => 0,
            Controls::Joystick => 1,
            Controls::Mouse => 2,
        }
    }
}

/// Default table of course keys, twelve characters each.
impl Default for Model {
    /// The car shown first in the car selection.
    fn default() -> (r: Self)
        ensures
            r == Model::Esprit,
    {
        Model::Esprit
    }
}

pub const DEFAULT_CFG_KEYS: [[u8; 12]; 64] = [
    [112, 119, 114, 119, 118, 119, 104, 110, 109, 45, 51, 48], // pwrwvwhnm-30
    [120, 109, 113, 105, 121, 115, 107, 97, 115, 45, 56, 48], // xmqiyskas-80
    [117, 118, 113, 115, 110, 112, 98, 99, 109, 45, 55, 48], // uvqsnpbcm-70
    [99, 119, 118, 98, 113, 112, 99, 97, 118, 45, 53, 48], // cwvbqpcav-50
    [115, 102, 120, 117, 120, 120, 120, 120, 112, 45, 54, 48], // sfxuxxxxp-60
    [104, 115, 121, 119, 121, 115, 107, 99, 103, 45, 53, 48], // hsywyskcg-50
    [105, 118, 118, 101, 109, 109, 107, 111, 122, 45, 53, 48], // ivvemmkoz-50
    [97, 110, 110, 115, 109, 113, 108, 112, 110, 45, 54, 48], // annsmqlpn-60
    [118, 122, 118, 100, 111, 112, 104, 99, 121, 45, 53, 48], // vzvdophcy-50
    [114, 116, 108, 109, 121, 106, 107, 104, 98, 45, 54, 48], // rtlmyjkhb-60
    [101, 114, 114, 117, 114, 118, 32, 32, 32, 45, 54, 55], // errurv   -67
    [110, 115, 115, 115, 120, 120, 120, 120, 115, 45, 54, 48], // nsssxxxxs-60
    [119, 115, 118, 117, 113, 112, 99, 115, 106, 45, 55, 48], // wsvuqpcsj-70
    [111, 117, 110, 100, 101, 102, 97, 99, 103, 45, 57, 57], // oundefacg-99
    [103, 120, 119, 100, 121, 112, 97, 99, 118, 45, 54, 56], // gxwdypacv-68
    [98, 122, 32, 122, 102, 32, 98, 97, 116, 45, 57, 48], // bz zf bat-90
    [108, 119, 110, 106, 119, 107, 97, 99, 110, 45, 57, 48], // lwnjwkacn-90
    [105, 121, 118, 118, 110, 118, 101, 113, 114, 45, 51, 53], // iyvvnveqr-35
    [107, 97, 122, 122, 110, 105, 107, 97, 105, 45, 52, 53], // kazznikai-45
    [102, 103, 113, 108, 106, 103, 100, 97, 102, 45, 54, 53], // fgqljgdaf-65
    [109, 102, 102, 115, 114, 112, 121, 100, 117, 45, 54, 48], // mffsrpydu-60
    [112, 108, 113, 116, 122, 113, 100, 112, 101, 45, 56, 48], // plqtzqdpe-80
    [122, 107, 122, 103, 107, 106, 107, 107, 107, 45, 53, 48], // zkzgkjkkk-50
    [116, 103, 103, 106, 103, 103, 116, 116, 116, 45, 54, 51], // tggjggttt-63
    [97, 102, 122, 121, 98, 113, 99, 106, 116, 45, 55, 48], // afzybqcjt-70
    [106, 98, 111, 117, 107, 106, 104, 107, 97, 45, 57, 57], // jboukjhka-99
    [100, 97, 115, 105, 99, 111, 116, 101, 116, 45, 56, 48], // dasicotet-80
    [120, 100, 110, 117, 115, 101, 101, 99, 101, 45, 56, 53], // xdnuseece-85
    [113, 100, 115, 99, 106, 118, 101, 98, 116, 45, 55, 53], // qdscjvebt-75
    [115, 107, 103, 121, 120, 120, 120, 120, 107, 45, 53, 55], // skgyxxxxk-57
    [121, 107, 103, 106, 119, 118, 110, 97, 107, 45, 57, 50], // ykgjwvnak-92
    [119, 106, 109, 101, 103, 109, 101, 113, 104, 45, 54, 48], // wjmegmeqh-60
    [99, 114, 114, 105, 112, 119, 98, 120, 120, 45, 50, 56], // crripwbxx-28
    [113, 112, 119, 109, 118, 113, 107, 99, 113, 45, 51, 52], // qpwmvqkcq-34
    [120, 103, 112, 103, 112, 122, 104, 104, 115, 45, 52, 50], // xgpgpzhhs-42
    [102, 103, 119, 108, 115, 121, 99, 107, 109, 45, 53, 49], // fgwlsyckm-51
    [112, 114, 114, 117, 109, 112, 117, 109, 118, 45, 54, 56], // prrumpumv-68
    [110, 97, 110, 99, 120, 120, 120, 120, 122, 45, 51, 57], // nancxxxxz-39
    [105, 112, 119, 111, 110, 119, 111, 98, 112, 45, 54, 53], // ipwonwobp-65
    [114, 108, 113, 121, 100, 118, 97, 107, 97, 45, 52, 56], // rlqydvaka-48
    [104, 100, 109, 111, 113, 102, 97, 107, 97, 45, 53, 49], // hdmoqfaka-51
    [119, 120, 113, 98, 113, 109, 100, 120, 100, 45, 56, 56], // wxqbqmdxd-88
    [117, 100, 111, 110, 97, 106, 104, 97, 108, 45, 52, 55], // udonajhal-47
    [110, 107, 119, 99, 120, 120, 120, 120, 107, 45, 51, 51], // nkwcxxxxk-33
    [97, 111, 110, 103, 108, 113, 107, 116, 99, 45, 54, 51], // aonglqktc-63
    [122, 120, 106, 103, 104, 98, 107, 104, 102, 45, 55, 48], // zxjghbkhf-70
    [100, 112, 103, 116, 113, 107, 98, 104, 113, 45, 52, 50], // dpgtqkbhq-42
    [105, 112, 109, 105, 106, 111, 98, 104, 113, 45, 54, 50], // ipmijobhq-62
    [109, 117, 121, 117, 114, 119, 102, 104, 97, 45, 56, 54], // muyurwfha-86
    [112, 112, 114, 103, 103, 113, 102, 118, 108, 45, 53, 50], // pprggqfvl-52
    [106, 112, 105, 113, 107, 117, 104, 99, 101, 45, 54, 53], // jpiqkuhce-65
    [101, 105, 105, 98, 103, 103, 97, 102, 101, 45, 52, 56], // eiibggafe-48
    [99, 105, 103, 105, 117, 113, 99, 108, 116, 45, 57, 50], // cigiuqclt-92
    [107, 110, 104, 117, 112, 104, 104, 107, 101, 45, 54, 52], // knhuphhke-64
    [118, 118, 111, 115, 104, 103, 115, 105, 103, 45, 56, 54], // vvoshgsig-86
    [114, 103, 104, 115, 118, 98, 114, 101, 116, 45, 56, 57], // rghsvbret-89
    [121, 100, 111, 101, 114, 97, 99, 116, 106, 45, 56, 54], // ydoeractj-86
    [103, 120, 113, 102, 115, 117, 109, 112, 112, 45, 52, 53], // gxqfsumpp-45
    [116, 118, 113, 108, 115, 121, 117, 102, 117, 45, 56, 57], // tvqlsyufu-89
    [119, 109, 113, 104, 121, 109, 116, 118, 106, 45, 56, 53], // wmqhymtvj-85
    [111, 107, 117, 111, 98, 106, 105, 97, 99, 45, 56, 54], // okuobjiac-86
    [102, 105, 109, 106, 106, 105, 98, 99, 107, 45, 54, 56], // fimjjibck-68
    [115, 105, 103, 116, 120, 120, 120, 120, 104, 45, 51, 53], // sigtxxxxh-35
    [119, 110, 113, 107, 109, 112, 104, 118, 110, 45, 56, 48], // wnqkmphvn-80
];

/// Default course codes of the "define" menu.
pub const DEFAULT_GAME_KEYS: [[u8; 12]; 10] = [
    [120, 32, 32, 32, 32, 32, 32, 32, 32, 45, 48, 48], // x        -00
    [32, 32, 32, 32, 32, 32, 32, 32, 32, 45, 48, 48], //          -00
    [32, 32, 32, 32, 32, 32, 32, 32, 32, 45, 48, 48], //          -00
    [32, 32, 32, 32, 32, 32, 32, 32, 32, 45, 48, 48], //          -00
    [32, 32, 32, 32, 32, 32, 32, 32, 32, 45, 48, 48], //          -00
    [32, 32, 32, 32, 32, 32, 32, 32, 32, 45, 48, 48], //          -00
    [32, 32, 32, 32, 32, 32, 32, 32, 32, 45, 48, 48], //          -00
    [32, 32, 32, 32, 32, 32, 32, 32, 32, 45, 48, 48], //          -00
    [32, 32, 32, 32, 32, 32, 32, 32, 32, 45, 48, 48], //          -00
    [32, 32, 32, 32, 32, 32, 32, 32, 32, 45, 48, 48], //          -00
];

/// Default names of the high-score table.
pub const DEFAULT_SCORE_NAMES: [[u8; 12]; 60] = [
    [109, 102, 32, 108, 116, 100, 32, 32, 32, 32, 32, 32], // mf ltd
    [115, 104, 97, 117, 110, 32, 32, 32, 32, 32, 32, 32], // shaun
    [97, 110, 100, 114, 101, 119, 32, 32, 32, 32, 32, 32], // andrew
    [112, 101, 116, 101, 114, 32, 32, 32, 32, 32, 32, 32], // peter
    [99, 104, 114, 105, 115, 32, 32, 32, 32, 32, 32, 32], // chris
    [97, 110, 100, 121, 32, 32, 32, 32, 32, 32, 32, 32], // andy
    [100, 111, 117, 103, 32, 32, 32, 32, 32, 32, 32, 32], // doug
    [100, 97, 118, 101, 32, 32, 32, 32, 32, 32, 32, 32], // dave
    [108, 117, 103, 97, 32, 32, 32, 32, 32, 32, 32, 32], // luga
    [109, 105, 99, 104, 101, 108, 97, 110, 103, 101, 108, 111], // michelangelo
    [115, 111, 117, 116, 32, 32, 32, 32, 32, 32, 32, 32], // sout
    [114, 105, 99, 32, 32, 32, 32, 32, 32, 32, 32, 32], // ric
    [99, 114, 97, 105, 103, 32, 32, 32, 32, 32, 32, 32], // craig
    [110, 105, 103, 101, 32, 32, 32, 32, 32, 32, 32, 32], // nige
    [114, 97, 99, 104, 101, 108, 108, 32, 32, 32, 32, 32], // rachell
    [101, 115, 116, 104, 101, 114, 32, 32, 32, 32, 32, 32], // esther
    [114, 105, 99, 104, 32, 32, 32, 32, 32, 32, 32, 32], // rich
    [115, 116, 117, 97, 114, 116, 32, 32, 32, 32, 32, 32], // stuart
    [116, 105, 109, 32, 32, 32, 32, 32, 32, 32, 32, 32], // tim
    [97, 110, 100, 121, 32, 32, 32, 32, 32, 32, 32, 32], // andy
    [97, 32, 109, 111, 114, 114, 105, 115, 32, 32, 32, 32], // a morris
    [106, 97, 110, 101, 116, 32, 32, 32, 32, 32, 32, 32], // janet
    [108, 111, 114, 110, 97, 32, 32, 32, 32, 32, 32, 32], // lorna
    [118, 105, 99, 107, 121, 32, 32, 32, 32, 32, 32, 32], // vicky
    [99, 97, 114, 108, 121, 32, 32, 32, 32, 32, 32, 32], // carly
    [103, 97, 114, 121, 32, 32, 32, 32, 32, 32, 32, 32], // gary
    [115, 104, 97, 114, 111, 110, 32, 120, 32, 50, 32, 32], // sharon x 2
    [102, 105, 111, 110, 97, 32, 32, 32, 32, 32, 32, 32], // fiona
    [115, 97, 109, 32, 116, 104, 101, 32, 100, 111, 103, 32], // sam the dog
    [97, 108, 108, 32, 118, 101, 103, 97, 110, 115, 32, 32], // all vegans
    [98, 114, 105, 97, 110, 32, 104, 111, 98, 98, 115, 32], // brian hobbs
    [115, 116, 97, 99, 101, 121, 32, 103, 114, 101, 101, 110], // stacey green
    [114, 111, 115, 115, 32, 109, 111, 114, 114, 105, 115, 32], // ross morris
    [99, 104, 114, 105, 115, 32, 99, 108, 97, 114, 107, 32], // chris clark
    [97, 110, 100, 121, 32, 116, 117, 114, 110, 101, 114, 32], // andy turner
    [105, 119, 97, 110, 32, 32, 32, 32, 32, 32, 32, 32], // iwan
    [101, 114, 105, 99, 32, 32, 32, 32, 32, 32, 32, 32], // eric
    [100, 97, 102, 121, 100, 100, 32, 32, 32, 32, 32, 32], // dafydd
    [100, 97, 114, 114, 101, 110, 32, 32, 32, 32, 32, 32], // darren
    [116, 111, 109, 32, 32, 32, 32, 32, 32, 32, 32, 32], // tom
    [112, 101, 116, 101, 114, 32, 32, 32, 32, 32, 32, 32], // peter
    [101, 114, 110, 105, 101, 32, 32, 32, 32, 32, 32, 32], // ernie
    [103, 97, 122, 32, 104, 97, 119, 108, 101, 121, 32, 32], // gaz hawley
    [102, 114, 97, 110, 107, 32, 32, 32, 32, 32, 32, 32], // frank
    [97, 110, 110, 101, 116, 116, 101, 32, 32, 32, 32, 32], // annette
    [114, 105, 116, 99, 104, 105, 101, 32, 32, 32, 32, 32], // ritchie
    [115, 117, 101, 32, 32, 32, 32, 32, 32, 32, 32, 32], // sue
    [115, 99, 111, 116, 116, 121, 32, 32, 32, 32, 32, 32], // scotty
    [99, 111, 108, 105, 110, 32, 32, 32, 32, 32, 32, 32], // colin
    [98, 105, 108, 108, 121, 32, 119, 101, 115, 116, 32, 32], // billy west
    [115, 117, 101, 32, 32, 32, 32, 32, 32, 32, 32, 32], // sue
    [109, 101, 108, 32, 32, 32, 32, 32, 32, 32, 32, 32], // mel
    [97, 108, 105, 32, 32, 32, 32, 32, 32, 32, 32, 32], // ali
    [97, 110, 110, 101, 32, 32, 32, 32, 32, 32, 32, 32], // anne
    [109, 97, 110, 100, 121, 32, 32, 32, 32, 32, 32, 32], // mandy
    [106, 97, 110, 101, 116, 32, 32, 32, 32, 32, 32, 32], // janet
    [99, 104, 114, 105, 115, 116, 105, 110, 101, 32, 32, 32], // christine
    [98, 101, 99, 99, 97, 32, 32, 32, 32, 32, 32, 32], // becca
    [116, 105, 109, 32, 32, 32, 32, 32, 32, 32, 32, 32], // tim
    [109, 97, 103, 103, 105, 101, 32, 32, 32, 32, 32, 32], // maggie
];

/// Default points of the high-score table.
pub const DEFAULT_SCORE_POINTS: [u32; 60] = [
    5_000_000,
    4_000_000,
    3_000_000,
    2_500_000,
    2_000_000,
    1_500_000,
    1_000_000,
    500_000,
    200_000,
    100_000,
    50,
    40,
    30,
    25,
    20,
    15,
    10,
    5,
    2,
    1,
    5_000_000,
    4_000_000,
    3_000_000,
    2_500_000,
    2_000_000,
    1_500_000,
    1_000_000,
    500_000,
    200_000,
    100_000,
    50,
    40,
    30,
    25,
    20,
    15,
    10,
    5,
    2,
    1,
    5_000_000,
    4_000_000,
    3_000_000,
    2_500_000,
    2_000_000,
    1_500_000,
    1_000_000,
    500_000,
    200_000,
    100_000,
    50,
    40,
    30,
    25,
    20,
    15,
    10,
    5,
    2,
    1,
];


/// A text field of twelve characters, as the menus edit them.
pub type TextField = [u8; 12];

/// Which of the two players a setting belongs to.
#[derive(Clone, Copy, Debug, PartialEq, Eq, Structural)]
pub enum Player {
    One,
    Two,
}

/// One entry of the high-score table.
#[derive(Clone, Copy, Debug)]
pub struct Score {
    pub name: TextField,
    pub score: u32,
    pub model: ScoreModel,
}

/// Joystick calibration and last reading of one player.
#[derive(Clone, Copy, Debug)]
pub struct JoyState {
    /// Non-zero once the joystick has been calibrated.
    pub byte0: u8,
    /// Button bits of the last reading.
    pub byte1: u8,
    /// Last horizontal reading.
    pub word2: u16,
    /// Last vertical reading.
    pub word4: u16,
    /// Left threshold.
    pub word6: u16,
    /// Right threshold.
    pub word8: u16,
    /// Upper threshold.
    pub word10: u16,
    /// Lower threshold.
    pub word12: u16,
}

impl JoyState {
    /// Whether every field is zero.
    pub open spec fn is_zeroed(self) -> bool {
        &&& self.byte0 == 0
        &&& self.byte1 == 0
        &&& self.word2 == 0
        &&& self.word4 == 0
        &&& self.word6 == 0
        &&& self.word8 == 0
        &&& self.word10 == 0
        &&& self.word12 == 0
    }

    /// An uncalibrated joystick.
    pub fn new() -> (r: Self)
        ensures
            r.is_zeroed(),
    {
        JoyState { byte0: 0, byte1: 0, word2: 0, word4: 0, word6: 0, word8: 0, word10: 0, word12: 0 }
    }
}

/// The model of the `i`-th default high-score entry: the three cars take turns in
/// each block of ten entries, the last one of a block going to the first car.
pub open spec fn default_score_model(i: int) -> ScoreModel {
    let j = (i % 10) % 3;
    if j == 0 {
        ScoreModel::Esprit
    } else if j == 1 {
        ScoreModel::Elan
    } else {
        ScoreModel::M200
    }
}

/// The configuration that the game loads, edits in its menus and saves.
pub struct Config {
    pub race_type: Race,
    pub is_2pl_mode: bool,
    pub p1_gears: Transmission,
    pub p2_gears: Transmission,
    pub p1_accel: Acceleration,
    pub p2_accel: Acceleration,
    pub course_type: Course,
    pub unk_16f0: u16,
    /// Mouse button layout: 0 or 1.
    pub word_16f2: u16,
    pub snd_setting: SoundSettings,
    pub word_16f6: SoundSettings,
    pub word_16f8: u16,
    /// Joystick read timeout.
    pub word_16fa: u16,
    /// Non-zero when the two joysticks are swapped.
    pub word_16fc: u16,
    /// Input bits of player 1.
    pub byte_16fe: u8,
    /// Input device of player 1 (see [`Controls`]).
    pub word_16ff: u16,
    /// Scan codes of player 1: left, right, gear up, gear down, accelerate, brake.
    pub p1_kbd: [u8; 6],
    pub p1_joy: JoyState,
    /// Input bits of player 2.
    pub byte_1715: u8,
    /// Input device of player 2 (see [`Controls`]).
    pub word_1716: u16,
    /// Scan codes of player 2: left, right, gear up, gear down, accelerate, brake.
    pub p2_kbd: [u8; 6],
    pub p2_joy: JoyState,
    /// Scan codes that are taken: non-zero entries.
    pub arr_172c: [u8; 128],
    pub p1_name: TextField,
    pub p2_name: TextField,
    pub cfg_keys: [TextField; 64],
    pub game_keys: [TextField; 10],
    pub game_code: TextField,
    pub arr_1b48: [Score; 60],
    pub byte_1f08: u8,
}

impl Config {
    /// Whether `self` holds the settings the game starts with.
    pub open spec fn is_default(&self) -> bool {
        &&& self.race_type == Race::TimeLimit
        &&& !self.is_2pl_mode
        &&& self.p1_gears == Transmission::Automatic
        &&& self.p2_gears == Transmission::Automatic
        &&& self.p1_accel == Acceleration::Button
        &&& self.p2_accel == Acceleration::Button
        &&& self.course_type == Course::T1
        &&& self.unk_16f0 == 0
        &&& self.word_16f2 == 0
        &&& self.snd_setting == SoundSettings::PcSpeaker
        &&& self.word_16f6 == SoundSettings::PcSpeaker
        &&& self.word_16f8 == 0
        &&& self.word_16fa == 0
        &&& self.word_16fc == 0
        &&& self.byte_16fe == 0
        &&& self.word_16ff == 0
        &&& self.p1_kbd@ == seq![0x4Bu8, 0x4D, 0x48, 0x50, 0x1C, 0x52]
        &&& self.p1_joy.is_zeroed()
        &&& self.byte_1715 == 0
        &&& self.word_1716 == 0
        &&& self.p2_kbd@ == seq![0x7Fu8, 0x7F, 0x7F, 0x7F, 0x7F, 0x7F]
        &&& self.p2_joy.is_zeroed()
        &&& self.arr_172c@ == Seq::new(128, |i: int| 0u8)
        &&& self.p1_name@ == seq![80u8, 76, 65, 89, 69, 82, 32, 49, 32, 32, 32, 32]
        &&& self.p2_name@ == seq![80u8, 76, 65, 89, 69, 82, 32, 50, 32, 32, 32, 32]
        &&& self.cfg_keys == DEFAULT_CFG_KEYS
        &&& self.game_keys == DEFAULT_GAME_KEYS
        &&& self.game_code == DEFAULT_GAME_KEYS[0]
        &&& forall|i: int|
            0 <= i < 60 ==> {
                &&& (#[trigger] self.arr_1b48[i]).name == DEFAULT_SCORE_NAMES[i]
                &&& self.arr_1b48[i].score == DEFAULT_SCORE_POINTS[i]
                &&& self.arr_1b48[i].model == default_score_model(i)
            }
        &&& self.byte_1f08 == 0
    }

    /// The settings the game starts with.
    pub fn new() -> (r: Self)
        ensures
            r.is_default(),
    {
        let mut scores: [Score; 60] = [Score { name: [0u8; 12], score: 0, model: ScoreModel::Esprit }; 60];
        let mut i: usize = 0;
        while i < 60
            invariant
                i <= 60,
                forall|j: int|
                    0 <= j < i ==> {
                        &&& (#[trigger] scores[j]).name == DEFAULT_SCORE_NAMES[j]
                        &&& scores[j].score == DEFAULT_SCORE_POINTS[j]
                        &&& scores[j].model == default_score_model(j)
                    },
            decreases 60 - i,
        {
            let k: usize = (i % 10) % 3;
            let model = if k == 0 {
                ScoreModel::Esprit
            } else if k == 1 {
                ScoreModel::Elan
            } else {
                ScoreModel::M200
            };
            scores[i] = Score { name: DEFAULT_SCORE_NAMES[i], score: DEFAULT_SCORE_POINTS[i], model };
            i = i + 1;
        }
        let r = Config {
            race_type: Race::TimeLimit,
            is_2pl_mode: false,
            p1_gears: Transmission::Automatic,
            p2_gears: Transmission::Automatic,
            p1_accel: Acceleration::Button,
            p2_accel: Acceleration::Button,
            course_type: Course::T1,
            unk_16f0: 0,
            word_16f2: 0,
            snd_setting: SoundSettings::PcSpeaker,
            word_16f6: SoundSettings::PcSpeaker,
            word_16f8: 0,
            word_16fa: 0,
            word_16fc: 0,
            byte_16fe: 0,
            word_16ff: 0,
            p1_kbd: [0x4B, 0x4D, 0x48, 0x50, 0x1C, 0x52],
            p1_joy: JoyState::new(),
            byte_1715: 0,
            word_1716: 0,
            p2_kbd: [0x7F, 0x7F, 0x7F, 0x7F, 0x7F, 0x7F],
            p2_joy: JoyState::new(),
            arr_172c: [0u8; 128],
            p1_name: [80, 76, 65, 89, 69, 82, 32, 49, 32, 32, 32, 32],
            p2_name: [80, 76, 65, 89, 69, 82, 32, 50, 32, 32, 32, 32],
            cfg_keys: DEFAULT_CFG_KEYS,
            game_keys: DEFAULT_GAME_KEYS,
            game_code: DEFAULT_GAME_KEYS[0],
            arr_1b48: scores,
            byte_1f08: 0,
        };
        assert(r.p1_kbd@ == seq![0x4Bu8, 0x4D, 0x48, 0x50, 0x1C, 0x52]);
        assert(r.p2_kbd@ == seq![0x7Fu8, 0x7F, 0x7F, 0x7F, 0x7F, 0x7F]);
        assert(r.p1_name@ == seq![80u8, 76, 65, 89, 69, 82, 32, 49, 32, 32, 32, 32]);
        assert(r.p2_name@ == seq![80u8, 76, 65, 89, 69, 82, 32, 50, 32, 32, 32, 32]);
        assert(r.arr_172c@ == Seq::new(128, |i: int| 0u8));
        r
    }

    /// The bytes of the configuration as the game keeps it in memory, from 16E2 to
    /// 1F08 (2087 bytes), to be written to disk (see [`config_image`]).
    pub fn save(&self) -> (image: Vec<u8>)
        ensures
            image@ == config_image(*self),
    {
        let mut v: Vec<u8> = Vec::new();
        push_le16(&mut v, self.race_type.code());
        push_le16(&mut v, if self.is_2pl_mode { 1 } else { 0 });
        push_le16(&mut v, self.p1_gears.code());
        push_le16(&mut v, self.p2_gears.code());
        push_le16(&mut v, self.p1_accel.code());
        push_le16(&mut v, self.p2_accel.code());
        push_le16(&mut v, self.course_type.code());
        push_le16(&mut v, self.unk_16f0);
        push_le16(&mut v, self.word_16f2);
        push_le16(&mut v, self.snd_setting.code());
        push_le16(&mut v, self.word_16f6.code());
        push_le16(&mut v, self.word_16f8);
        push_le16(&mut v, self.word_16fa);
        push_le16(&mut v, self.word_16fc);
        v.push(self.byte_16fe);
        push_le16(&mut v, self.word_16ff);
        push_bytes(&mut v, &self.p1_kbd);
        push_joy(&mut v, &self.p1_joy);
        v.push(self.byte_1715);
        push_le16(&mut v, self.word_1716);
        push_bytes(&mut v, &self.p2_kbd);
        push_joy(&mut v, &self.p2_joy);
        push_bytes(&mut v, &self.arr_172c);
        push_bytes(&mut v, &self.p1_name);
        push_bytes(&mut v, &self.p2_name);
        push_fields(&mut v, &self.cfg_keys);
        push_fields(&mut v, &self.game_keys);
        push_bytes(&mut v, &self.game_code);
        push_scores(&mut v, &self.arr_1b48);
        v.push(self.byte_1f08);
        v
    }
}

/// A 16-bit value as its two bytes, low byte first.
pub open spec fn le16_bytes(x: u16) -> Seq<u8> {
    seq![(x % 256) as u8, (x / 256) as u8]
}

/// A joystick's state as it is kept: its two bytes, then its six words.
pub open spec fn joy_bytes(j: JoyState) -> Seq<u8> {
    seq![j.byte0, j.byte1] + le16_bytes(j.word2) + le16_bytes(j.word4) + le16_bytes(j.word6) + le16_bytes(j.word8)
        + le16_bytes(j.word10) + le16_bytes(j.word12)
}

/// A high-score entry as it is kept: the name, then the score's three low bytes and,
/// in the fourth byte, the car's number (see [`ScoreModel::spec_code`]).
pub open spec fn score_bytes(e: Score) -> Seq<u8> {
    e.name@ + seq![(e.score % 256) as u8, (e.score / 256 % 256) as u8, (e.score / 65536 % 256) as u8, e.model.spec_code() as u8]
}

/// Text fields one after the other.
pub open spec fn fields_bytes(fs: Seq<TextField>) -> Seq<u8>
    decreases fs.len(),
{
    if fs.len() == 0 {
        Seq::empty()
    } else {
        fields_bytes(fs.drop_last()) + fs.last()@
    }
}

/// High-score entries one after the other.
pub open spec fn scores_bytes(es: Seq<Score>) -> Seq<u8>
    decreases es.len(),
{
    if es.len() == 0 {
        Seq::empty()
    } else {
        scores_bytes(es.drop_last()) + score_bytes(es.last())
    }
}

/// The configuration's bytes from 16E2 to 1F08: the fields in order, each word low byte
/// first, the settings by the numbers the game stores for them and yes/no as 1/0.
pub open spec fn config_image(c: Config) -> Seq<u8> {
    Seq::empty() + le16_bytes(c.race_type.spec_code()) + le16_bytes(if c.is_2pl_mode { 1 } else { 0 })
        + le16_bytes(c.p1_gears.spec_code()) + le16_bytes(c.p2_gears.spec_code()) + le16_bytes(
        c.p1_accel.spec_code(),
    ) + le16_bytes(c.p2_accel.spec_code()) + le16_bytes(c.course_type.spec_code()) + le16_bytes(c.unk_16f0)
        + le16_bytes(c.word_16f2) + le16_bytes(c.snd_setting.spec_code()) + le16_bytes(c.word_16f6.spec_code())
        + le16_bytes(c.word_16f8) + le16_bytes(c.word_16fa) + le16_bytes(c.word_16fc) + seq![c.byte_16fe]
        + le16_bytes(c.word_16ff) + c.p1_kbd@ + joy_bytes(c.p1_joy) + seq![c.byte_1715] + le16_bytes(c.word_1716)
        + c.p2_kbd@ + joy_bytes(c.p2_joy) + c.arr_172c@ + c.p1_name@ + c.p2_name@ + fields_bytes(c.cfg_keys@)
        + fields_bytes(c.game_keys@) + c.game_code@ + scores_bytes(c.arr_1b48@) + seq![c.byte_1f08]
}

/// Appends `x`, low byte first.
fn push_le16(v: &mut Vec<u8>, x: u16)
    ensures
        final(v)@ == old(v)@ + le16_bytes(x),
{
    v.push((x % 256) as u8);
    v.push((x / 256) as u8);
    assert(v@ =~= old(v)@ + le16_bytes(x));
}

/// Appends the bytes `b`.
fn push_bytes(v: &mut Vec<u8>, b: &[u8])
    ensures
        final(v)@ == old(v)@ + b@,
{
    let mut i: usize = 0;
    while i < b.len()
        invariant
            i <= b@.len(),
            v@ == old(v)@ + b@.subrange(0, i as int),
        decreases b@.len() - i,
    {
        v.push(b[i]);
        i = i + 1;
        assert(v@ =~= old(v)@ + b@.subrange(0, i as int));
    }
    assert(b@.subrange(0, b@.len() as int) =~= b@);
}

/// Appends a joystick's state (see [`joy_bytes`]).
fn push_joy(v: &mut Vec<u8>, j: &JoyState)
    ensures
        final(v)@ == old(v)@ + joy_bytes(*j),
{
    v.push(j.byte0);
    v.push(j.byte1);
    push_le16(v, j.word2);
    push_le16(v, j.word4);
    push_le16(v, j.word6);
    push_le16(v, j.word8);
    push_le16(v, j.word10);
    push_le16(v, j.word12);
    assert(v@ =~= old(v)@ + joy_bytes(*j));
}

/// Appends text fields (see [`fields_bytes`]).
fn push_fields(v: &mut Vec<u8>, fs: &[TextField])
    ensures
        final(v)@ == old(v)@ + fields_bytes(fs@),
{
    let mut i: usize = 0;
    while i < fs.len()
        invariant
            i <= fs@.len(),
            v@ == old(v)@ + fields_bytes(fs@.subrange(0, i as int)),
        decreases fs@.len() - i,
    {
        let ghost before = v@;
        let f = fs[i];
        push_bytes(v, &f);
        assert(fs@.subrange(0, i + 1).drop_last() =~= fs@.subrange(0, i as int));
        assert(v@ =~= old(v)@ + fields_bytes(fs@.subrange(0, i + 1)));
        i = i + 1;
    }
    assert(fs@.subrange(0, fs@.len() as int) =~= fs@);
}

/// Appends high-score entries (see [`scores_bytes`]).
fn push_scores(v: &mut Vec<u8>, es: &[Score])
    ensures
        final(v)@ == old(v)@ + scores_bytes(es@),
{
    let mut i: usize = 0;
    while i < es.len()
        invariant
            i <= es@.len(),
            v@ == old(v)@ + scores_bytes(es@.subrange(0, i as int)),
        decreases es@.len() - i,
    {
        let e = es[i];
        push_bytes(v, &e.name);
        v.push((e.score % 256) as u8);
        v.push((e.score / 256 % 256) as u8);
        v.push((e.score / 65536 % 256) as u8);
        v.push(e.model.code() as u8);
        assert(es@.subrange(0, i + 1).drop_last() =~= es@.subrange(0, i as int));
        assert(v@ =~= old(v)@ + scores_bytes(es@.subrange(0, i + 1)));
        i = i + 1;
    }
    assert(es@.subrange(0, es@.len() as int) =~= es@);
}

impl Default for JoyState {
    /// An uncalibrated joystick.
    fn default() -> (r: Self)
        ensures
            r.is_zeroed(),
    {
        JoyState::new()
    }
}

/// Toggling the gearbox twice gives the setting back.
pub proof fn lemma_transmission_toggle_twice(t: Transmission)
    ensures
        t.succ().succ() == t,
{
}

/// Toggling the acceleration mode twice gives the setting back.
pub proof fn lemma_acceleration_toggle_twice(a: Acceleration)
    ensures
        a.succ().succ() == a,
{
}

/// Toggling the race type twice gives the setting back.
pub proof fn lemma_race_toggle_twice(r: Race)
    ensures
        r.succ().succ() == r,
{
}

/// Stepping the course five times gives the course back, and no fewer steps do.
pub proof fn lemma_course_cycle(c: Course)
    ensures
        c.succ().succ().succ().succ().succ() == c,
        c.succ() != c,
        c.succ().succ() != c,
        c.succ().succ().succ() != c,
        c.succ().succ().succ().succ() != c,
{
}

/// Stepping to the previous car undoes stepping to the next one and the other way round;
/// three steps in the same direction give the car back.
pub proof fn lemma_model_cycle(m: Model)
    ensures
        m.succ().pred() == m,
        m.pred().succ() == m,
        m.succ().succ().succ() == m,
        m.pred().pred().pred() == m,
{
}

} // verus!
