//! What a shader finds in the block of values that it is given.
use vstd::prelude::*;

use crate::orders::index_text;
use crate::packing::{byte_of, numbers_for, place_in, written_count};
use crate::params::{gives, param_value, param_values, used_constants, ParamModel, ParamType};
use crate::script_setup::all_digits;
use crate::strings::{digit_char, lower};
use crate::uniforms::{
    builtin_gl, builtin_numbers, member_type, resolution_index, types_upto, Builtins, GlType,
};
use crate::user::Constants;
use crate::value::{digits_value, Dynamic, Number};

verus! {

proof fn lemma_name_lengths()
    ensures
        "g_Time"@.len() == 6,
        "g_Daytime"@.len() == 9,
        "g_Brightness"@.len() == 12,
        "g_Alpha"@.len() == 7,
        "g_UserAlpha"@.len() == 11,
        "g_TextureReductionScale"@.len() == 23,
        "g_Color4"@.len() == 8,
        "g_LightAmbientColor"@.len() == 19,
        "g_LightSkylightColor"@.len() == 20,
        "g_PointerPosition"@.len() == 17,
        "g_PointerPositionLast"@.len() == 21,
        "g_TexelSize"@.len() == 11,
        "g_TexelSizeHalf"@.len() == 15,
        "g_Screen"@.len() == 8,
        "g_Texture0Translation"@.len() == 21,
        "g_Texture0Rotation"@.len() == 18,
        "g_ModelViewProjectionMatrix"@.len() == 27,
        "g_EffectModelViewProjectionMatrix"@.len() == 33,
        "g_ModelViewProjectionMatrixInverse"@.len() == 34,
        "g_ModelMatrix"@.len() == 13,
        "g_EffectModelMatrix"@.len() == 19,
        "g_ModelMatrixInverse"@.len() == 20,
        "g_ViewProjectionMatrix"@.len() == 22,
        "g_EyePosition"@.len() == 13,
        "g_RenderVar0"@.len() == 12,
        "g_RenderVar1"@.len() == 12,
        "g_RefractAmount"@.len() == 15,
        "g_AudioSpectrum16Left"@.len() == 21,
        "g_AudioSpectrum16Right"@.len() == 22,
        "g_AudioSpectrum32Left"@.len() == 21,
        "g_AudioSpectrum32Right"@.len() == 22,
        "g_AudioSpectrum64Left"@.len() == 21,
        "g_AudioSpectrum64Right"@.len() == 22,
        "g_OrientationUp"@.len() == 15,
        "g_ViewUp"@.len() == 8,
        "g_OrientationRight"@.len() == 18,
        "g_ViewRight"@.len() == 11,
        "g_OrientationForward"@.len() == 20,
        "g_Color"@.len() == 7,
        "g_CompositeColor"@.len() == 16,
        "g_EffectTextureProjectionMatrix"@.len() == 31,
        "g_EffectTextureProjectionMatrixInverse"@.len() == 38,
        "g_NormalModelMatrix"@.len() == 19,
{
    reveal_strlit("g_Time");
    reveal_strlit("g_Daytime");
    reveal_strlit("g_Brightness");
    reveal_strlit("g_Alpha");
    reveal_strlit("g_UserAlpha");
    reveal_strlit("g_TextureReductionScale");
    reveal_strlit("g_Color4");
    reveal_strlit("g_LightAmbientColor");
    reveal_strlit("g_LightSkylightColor");
    reveal_strlit("g_PointerPosition");
    reveal_strlit("g_PointerPositionLast");
    reveal_strlit("g_TexelSize");
    reveal_strlit("g_TexelSizeHalf");
    reveal_strlit("g_Screen");
    reveal_strlit("g_Texture0Translation");
    reveal_strlit("g_Texture0Rotation");
    reveal_strlit("g_ModelViewProjectionMatrix");
    reveal_strlit("g_EffectModelViewProjectionMatrix");
    reveal_strlit("g_ModelViewProjectionMatrixInverse");
    reveal_strlit("g_ModelMatrix");
    reveal_strlit("g_EffectModelMatrix");
    reveal_strlit("g_ModelMatrixInverse");
    reveal_strlit("g_ViewProjectionMatrix");
    reveal_strlit("g_EyePosition");
    reveal_strlit("g_RenderVar0");
    reveal_strlit("g_RenderVar1");
    reveal_strlit("g_RefractAmount");
    reveal_strlit("g_AudioSpectrum16Left");
    reveal_strlit("g_AudioSpectrum16Right");
    reveal_strlit("g_AudioSpectrum32Left");
    reveal_strlit("g_AudioSpectrum32Right");
    reveal_strlit("g_AudioSpectrum64Left");
    reveal_strlit("g_AudioSpectrum64Right");
    reveal_strlit("g_OrientationUp");
    reveal_strlit("g_ViewUp");
    reveal_strlit("g_OrientationRight");
    reveal_strlit("g_ViewRight");
    reveal_strlit("g_OrientationForward");
    reveal_strlit("g_Color");
    reveal_strlit("g_CompositeColor");
    reveal_strlit("g_EffectTextureProjectionMatrix");
    reveal_strlit("g_EffectTextureProjectionMatrixInverse");
    reveal_strlit("g_NormalModelMatrix");
}

proof fn lemma_names_of_one_length_differ()
    ensures
        "g_Brightness"@ != "g_RenderVar0"@,
        "g_Brightness"@ != "g_RenderVar1"@,
        "g_Alpha"@ != "g_Color"@,
        "g_UserAlpha"@ != "g_TexelSize"@,
        "g_UserAlpha"@ != "g_ViewRight"@,
        "g_Color4"@ != "g_Screen"@,
        "g_Color4"@ != "g_ViewUp"@,
        "g_LightAmbientColor"@ != "g_EffectModelMatrix"@,
        "g_LightAmbientColor"@ != "g_NormalModelMatrix"@,
        "g_LightSkylightColor"@ != "g_ModelMatrixInverse"@,
        "g_LightSkylightColor"@ != "g_OrientationForward"@,
        "g_PointerPositionLast"@ != "g_Texture0Translation"@,
        "g_PointerPositionLast"@ != "g_AudioSpectrum16Left"@,
        "g_PointerPositionLast"@ != "g_AudioSpectrum32Left"@,
        "g_PointerPositionLast"@ != "g_AudioSpectrum64Left"@,
        "g_TexelSize"@ != "g_ViewRight"@,
        "g_TexelSizeHalf"@ != "g_RefractAmount"@,
        "g_TexelSizeHalf"@ != "g_OrientationUp"@,
        "g_Screen"@ != "g_ViewUp"@,
        "g_Texture0Translation"@ != "g_AudioSpectrum16Left"@,
        "g_Texture0Translation"@ != "g_AudioSpectrum32Left"@,
        "g_Texture0Translation"@ != "g_AudioSpectrum64Left"@,
        "g_Texture0Rotation"@ != "g_OrientationRight"@,
        "g_ModelMatrix"@ != "g_EyePosition"@,
        "g_EffectModelMatrix"@ != "g_NormalModelMatrix"@,
        "g_ModelMatrixInverse"@ != "g_OrientationForward"@,
        "g_ViewProjectionMatrix"@ != "g_AudioSpectrum16Right"@,
        "g_ViewProjectionMatrix"@ != "g_AudioSpectrum32Right"@,
        "g_ViewProjectionMatrix"@ != "g_AudioSpectrum64Right"@,
        "g_RenderVar0"@ != "g_RenderVar1"@,
        "g_RefractAmount"@ != "g_OrientationUp"@,
        "g_AudioSpectrum16Left"@ != "g_AudioSpectrum32Left"@,
        "g_AudioSpectrum16Left"@ != "g_AudioSpectrum64Left"@,
        "g_AudioSpectrum16Right"@ != "g_AudioSpectrum32Right"@,
        "g_AudioSpectrum16Right"@ != "g_AudioSpectrum64Right"@,
        "g_AudioSpectrum32Left"@ != "g_AudioSpectrum64Left"@,
        "g_AudioSpectrum32Right"@ != "g_AudioSpectrum64Right"@,
{
    reveal_strlit("g_Brightness");
    reveal_strlit("g_Alpha");
    reveal_strlit("g_UserAlpha");
    reveal_strlit("g_Color4");
    reveal_strlit("g_LightAmbientColor");
    reveal_strlit("g_LightSkylightColor");
    reveal_strlit("g_PointerPositionLast");
    reveal_strlit("g_TexelSize");
    reveal_strlit("g_TexelSizeHalf");
    reveal_strlit("g_Screen");
    reveal_strlit("g_Texture0Translation");
    reveal_strlit("g_Texture0Rotation");
    reveal_strlit("g_ModelMatrix");
    reveal_strlit("g_EffectModelMatrix");
    reveal_strlit("g_ModelMatrixInverse");
    reveal_strlit("g_ViewProjectionMatrix");
    reveal_strlit("g_EyePosition");
    reveal_strlit("g_RenderVar0");
    reveal_strlit("g_RenderVar1");
    reveal_strlit("g_RefractAmount");
    reveal_strlit("g_AudioSpectrum16Left");
    reveal_strlit("g_AudioSpectrum16Right");
    reveal_strlit("g_AudioSpectrum32Left");
    reveal_strlit("g_AudioSpectrum32Right");
    reveal_strlit("g_AudioSpectrum64Left");
    reveal_strlit("g_AudioSpectrum64Right");
    reveal_strlit("g_OrientationUp");
    reveal_strlit("g_ViewUp");
    reveal_strlit("g_OrientationRight");
    reveal_strlit("g_ViewRight");
    reveal_strlit("g_OrientationForward");
    reveal_strlit("g_Color");
    reveal_strlit("g_NormalModelMatrix");
    assert("g_Brightness"@[2] != "g_RenderVar0"@[2]);
    assert("g_Brightness"@[2] != "g_RenderVar1"@[2]);
    assert("g_Alpha"@[2] != "g_Color"@[2]);
    assert("g_UserAlpha"@[2] != "g_TexelSize"@[2]);
    assert("g_UserAlpha"@[2] != "g_ViewRight"@[2]);
    assert("g_Color4"@[2] != "g_Screen"@[2]);
    assert("g_Color4"@[2] != "g_ViewUp"@[2]);
    assert("g_LightAmbientColor"@[2] != "g_EffectModelMatrix"@[2]);
    assert("g_LightAmbientColor"@[2] != "g_NormalModelMatrix"@[2]);
    assert("g_LightSkylightColor"@[2] != "g_ModelMatrixInverse"@[2]);
    assert("g_LightSkylightColor"@[2] != "g_OrientationForward"@[2]);
    assert("g_PointerPositionLast"@[2] != "g_Texture0Translation"@[2]);
    assert("g_PointerPositionLast"@[2] != "g_AudioSpectrum16Left"@[2]);
    assert("g_PointerPositionLast"@[2] != "g_AudioSpectrum32Left"@[2]);
    assert("g_PointerPositionLast"@[2] != "g_AudioSpectrum64Left"@[2]);
    assert("g_TexelSize"@[2] != "g_ViewRight"@[2]);
    assert("g_TexelSizeHalf"@[2] != "g_RefractAmount"@[2]);
    assert("g_TexelSizeHalf"@[2] != "g_OrientationUp"@[2]);
    assert("g_Screen"@[2] != "g_ViewUp"@[2]);
    assert("g_Texture0Translation"@[2] != "g_AudioSpectrum16Left"@[2]);
    assert("g_Texture0Translation"@[2] != "g_AudioSpectrum32Left"@[2]);
    assert("g_Texture0Translation"@[2] != "g_AudioSpectrum64Left"@[2]);
    assert("g_Texture0Rotation"@[2] != "g_OrientationRight"@[2]);
    assert("g_ModelMatrix"@[2] != "g_EyePosition"@[2]);
    assert("g_EffectModelMatrix"@[2] != "g_NormalModelMatrix"@[2]);
    assert("g_ModelMatrixInverse"@[2] != "g_OrientationForward"@[2]);
    assert("g_ViewProjectionMatrix"@[2] != "g_AudioSpectrum16Right"@[2]);
    assert("g_ViewProjectionMatrix"@[2] != "g_AudioSpectrum32Right"@[2]);
    assert("g_ViewProjectionMatrix"@[2] != "g_AudioSpectrum64Right"@[2]);
    assert("g_RenderVar0"@[11] != "g_RenderVar1"@[11]);
    assert("g_RefractAmount"@[2] != "g_OrientationUp"@[2]);
    assert("g_AudioSpectrum16Left"@[15] != "g_AudioSpectrum32Left"@[15]);
    assert("g_AudioSpectrum16Left"@[15] != "g_AudioSpectrum64Left"@[15]);
    assert("g_AudioSpectrum16Right"@[15] != "g_AudioSpectrum32Right"@[15]);
    assert("g_AudioSpectrum16Right"@[15] != "g_AudioSpectrum64Right"@[15]);
    assert("g_AudioSpectrum32Left"@[15] != "g_AudioSpectrum64Left"@[15]);
    assert("g_AudioSpectrum32Right"@[15] != "g_AudioSpectrum64Right"@[15]);
}

proof fn lemma_names_without_a_texture()
    ensures
        resolution_index("g_Time"@) is None,
        resolution_index("g_Daytime"@) is None,
        resolution_index("g_Brightness"@) is None,
        resolution_index("g_Alpha"@) is None,
        resolution_index("g_UserAlpha"@) is None,
        resolution_index("g_TextureReductionScale"@) is None,
        resolution_index("g_Color4"@) is None,
        resolution_index("g_LightAmbientColor"@) is None,
        resolution_index("g_LightSkylightColor"@) is None,
        resolution_index("g_PointerPosition"@) is None,
        resolution_index("g_PointerPositionLast"@) is None,
        resolution_index("g_TexelSize"@) is None,
        resolution_index("g_TexelSizeHalf"@) is None,
        resolution_index("g_Screen"@) is None,
        resolution_index("g_Texture0Translation"@) is None,
        resolution_index("g_Texture0Rotation"@) is None,
        resolution_index("g_ModelViewProjectionMatrix"@) is None,
        resolution_index("g_EffectModelViewProjectionMatrix"@) is None,
        resolution_index("g_ModelViewProjectionMatrixInverse"@) is None,
        resolution_index("g_ModelMatrix"@) is None,
        resolution_index("g_EffectModelMatrix"@) is None,
        resolution_index("g_ModelMatrixInverse"@) is None,
        resolution_index("g_ViewProjectionMatrix"@) is None,
        resolution_index("g_EyePosition"@) is None,
        resolution_index("g_RenderVar0"@) is None,
        resolution_index("g_RenderVar1"@) is None,
        resolution_index("g_RefractAmount"@) is None,
        resolution_index("g_AudioSpectrum16Left"@) is None,
        resolution_index("g_AudioSpectrum16Right"@) is None,
        resolution_index("g_AudioSpectrum32Left"@) is None,
        resolution_index("g_AudioSpectrum32Right"@) is None,
        resolution_index("g_AudioSpectrum64Left"@) is None,
        resolution_index("g_AudioSpectrum64Right"@) is None,
        resolution_index("g_OrientationUp"@) is None,
        resolution_index("g_ViewUp"@) is None,
        resolution_index("g_OrientationRight"@) is None,
        resolution_index("g_ViewRight"@) is None,
        resolution_index("g_OrientationForward"@) is None,
        resolution_index("g_Color"@) is None,
        resolution_index("g_CompositeColor"@) is None,
        resolution_index("g_EffectTextureProjectionMatrix"@) is None,
        resolution_index("g_EffectTextureProjectionMatrixInverse"@) is None,
        resolution_index("g_NormalModelMatrix"@) is None,
{
    lemma_name_lengths();
    reveal_strlit("g_Texture");
    reveal_strlit("Resolution");
    assert("g_Texture"@.len() == 9 && "Resolution"@.len() == 10);
    assert(resolution_index("g_TextureReductionScale"@) is None) by {
        reveal_strlit("g_TextureReductionScale");
        assert("g_TextureReductionScale"@.skip(13)[0] == "g_TextureReductionScale"@[13]);
        assert("g_TextureReductionScale"@[13] == 'c' && "Resolution"@[0] == 'R');
    }
    assert(resolution_index("g_LightAmbientColor"@) is None) by {
        reveal_strlit("g_LightAmbientColor");
        assert("g_LightAmbientColor"@.take(9)[2] == "g_LightAmbientColor"@[2]);
        assert("g_LightAmbientColor"@[2] == 'L' && "g_Texture"@[2] == 'T');
    }
    assert(resolution_index("g_LightSkylightColor"@) is None) by {
        reveal_strlit("g_LightSkylightColor");
        assert("g_LightSkylightColor"@.take(9)[2] == "g_LightSkylightColor"@[2]);
        assert("g_LightSkylightColor"@[2] == 'L' && "g_Texture"@[2] == 'T');
    }
    assert(resolution_index("g_PointerPositionLast"@) is None) by {
        reveal_strlit("g_PointerPositionLast");
        assert("g_PointerPositionLast"@.take(9)[2] == "g_PointerPositionLast"@[2]);
        assert("g_PointerPositionLast"@[2] == 'P' && "g_Texture"@[2] == 'T');
    }
    assert(resolution_index("g_Texture0Translation"@) is None) by {
        reveal_strlit("g_Texture0Translation");
        assert("g_Texture0Translation"@.skip(11)[0] == "g_Texture0Translation"@[11]);
        assert("g_Texture0Translation"@[11] == 'r' && "Resolution"@[0] == 'R');
    }
    assert(resolution_index("g_ModelViewProjectionMatrix"@) is None) by {
        reveal_strlit("g_ModelViewProjectionMatrix");
        assert("g_ModelViewProjectionMatrix"@.take(9)[2] == "g_ModelViewProjectionMatrix"@[2]);
        assert("g_ModelViewProjectionMatrix"@[2] == 'M' && "g_Texture"@[2] == 'T');
    }
    assert(resolution_index("g_EffectModelViewProjectionMatrix"@) is None) by {
        reveal_strlit("g_EffectModelViewProjectionMatrix");
        assert("g_EffectModelViewProjectionMatrix"@.take(9)[2] == "g_EffectModelViewProjectionMatrix"@[2]);
        assert("g_EffectModelViewProjectionMatrix"@[2] == 'E' && "g_Texture"@[2] == 'T');
    }
    assert(resolution_index("g_ModelViewProjectionMatrixInverse"@) is None) by {
        reveal_strlit("g_ModelViewProjectionMatrixInverse");
        assert("g_ModelViewProjectionMatrixInverse"@.take(9)[2] == "g_ModelViewProjectionMatrixInverse"@[2]);
        assert("g_ModelViewProjectionMatrixInverse"@[2] == 'M' && "g_Texture"@[2] == 'T');
    }
    assert(resolution_index("g_EffectModelMatrix"@) is None) by {
        reveal_strlit("g_EffectModelMatrix");
        assert("g_EffectModelMatrix"@.take(9)[2] == "g_EffectModelMatrix"@[2]);
        assert("g_EffectModelMatrix"@[2] == 'E' && "g_Texture"@[2] == 'T');
    }
    assert(resolution_index("g_ModelMatrixInverse"@) is None) by {
        reveal_strlit("g_ModelMatrixInverse");
        assert("g_ModelMatrixInverse"@.take(9)[2] == "g_ModelMatrixInverse"@[2]);
        assert("g_ModelMatrixInverse"@[2] == 'M' && "g_Texture"@[2] == 'T');
    }
    assert(resolution_index("g_ViewProjectionMatrix"@) is None) by {
        reveal_strlit("g_ViewProjectionMatrix");
        assert("g_ViewProjectionMatrix"@.take(9)[2] == "g_ViewProjectionMatrix"@[2]);
        assert("g_ViewProjectionMatrix"@[2] == 'V' && "g_Texture"@[2] == 'T');
    }
    assert(resolution_index("g_AudioSpectrum16Left"@) is None) by {
        reveal_strlit("g_AudioSpectrum16Left");
        assert("g_AudioSpectrum16Left"@.take(9)[2] == "g_AudioSpectrum16Left"@[2]);
        assert("g_AudioSpectrum16Left"@[2] == 'A' && "g_Texture"@[2] == 'T');
    }
    assert(resolution_index("g_AudioSpectrum16Right"@) is None) by {
        reveal_strlit("g_AudioSpectrum16Right");
        assert("g_AudioSpectrum16Right"@.take(9)[2] == "g_AudioSpectrum16Right"@[2]);
        assert("g_AudioSpectrum16Right"@[2] == 'A' && "g_Texture"@[2] == 'T');
    }
    assert(resolution_index("g_AudioSpectrum32Left"@) is None) by {
        reveal_strlit("g_AudioSpectrum32Left");
        assert("g_AudioSpectrum32Left"@.take(9)[2] == "g_AudioSpectrum32Left"@[2]);
        assert("g_AudioSpectrum32Left"@[2] == 'A' && "g_Texture"@[2] == 'T');
    }
    assert(resolution_index("g_AudioSpectrum32Right"@) is None) by {
        reveal_strlit("g_AudioSpectrum32Right");
        assert("g_AudioSpectrum32Right"@.take(9)[2] == "g_AudioSpectrum32Right"@[2]);
        assert("g_AudioSpectrum32Right"@[2] == 'A' && "g_Texture"@[2] == 'T');
    }
    assert(resolution_index("g_AudioSpectrum64Left"@) is None) by {
        reveal_strlit("g_AudioSpectrum64Left");
        assert("g_AudioSpectrum64Left"@.take(9)[2] == "g_AudioSpectrum64Left"@[2]);
        assert("g_AudioSpectrum64Left"@[2] == 'A' && "g_Texture"@[2] == 'T');
    }
    assert(resolution_index("g_AudioSpectrum64Right"@) is None) by {
        reveal_strlit("g_AudioSpectrum64Right");
        assert("g_AudioSpectrum64Right"@.take(9)[2] == "g_AudioSpectrum64Right"@[2]);
        assert("g_AudioSpectrum64Right"@[2] == 'A' && "g_Texture"@[2] == 'T');
    }
    assert(resolution_index("g_OrientationForward"@) is None) by {
        reveal_strlit("g_OrientationForward");
        assert("g_OrientationForward"@.take(9)[2] == "g_OrientationForward"@[2]);
        assert("g_OrientationForward"@[2] == 'O' && "g_Texture"@[2] == 'T');
    }
    assert(resolution_index("g_EffectTextureProjectionMatrix"@) is None) by {
        reveal_strlit("g_EffectTextureProjectionMatrix");
        assert("g_EffectTextureProjectionMatrix"@.take(9)[2] == "g_EffectTextureProjectionMatrix"@[2]);
        assert("g_EffectTextureProjectionMatrix"@[2] == 'E' && "g_Texture"@[2] == 'T');
    }
    assert(resolution_index("g_EffectTextureProjectionMatrixInverse"@) is None) by {
        reveal_strlit("g_EffectTextureProjectionMatrixInverse");
        assert("g_EffectTextureProjectionMatrixInverse"@.take(9)[2] == "g_EffectTextureProjectionMatrixInverse"@[2]);
        assert("g_EffectTextureProjectionMatrixInverse"@[2] == 'E' && "g_Texture"@[2] == 'T');
    }
    assert(resolution_index("g_NormalModelMatrix"@) is None) by {
        reveal_strlit("g_NormalModelMatrix");
        assert("g_NormalModelMatrix"@.take(9)[2] == "g_NormalModelMatrix"@[2]);
        assert("g_NormalModelMatrix"@[2] == 'N' && "g_Texture"@[2] == 'T');
    }
}

/// Every value that a shader knows by name is, number for number, what the
/// frame has for it.
pub proof fn law_built_in_values_are_those_of_the_frame(b: Builtins)
    ensures
        builtin_numbers(b, "g_Time"@) == Some(seq![b.time]),
        builtin_numbers(b, "g_Daytime"@) == Some(seq![b.daytime]),
        builtin_numbers(b, "g_Brightness"@) == Some(seq![b.brightness]),
        builtin_numbers(b, "g_Alpha"@) == Some(seq![b.alpha]),
        builtin_numbers(b, "g_UserAlpha"@) == Some(seq![b.alpha]),
        builtin_numbers(b, "g_TextureReductionScale"@) == Some(seq![0x3f80_0000u32]),
        builtin_numbers(b, "g_Color4"@) == Some(b.color@),
        builtin_numbers(b, "g_LightAmbientColor"@) == Some(b.ambient@),
        builtin_numbers(b, "g_LightSkylightColor"@) == Some(b.skylight@),
        builtin_numbers(b, "g_PointerPosition"@) == Some(b.pointer@),
        builtin_numbers(b, "g_PointerPositionLast"@) == Some(b.pointer_last@),
        builtin_numbers(b, "g_TexelSize"@) == Some(b.texel_size@),
        builtin_numbers(b, "g_TexelSizeHalf"@) == Some(b.texel_half@),
        builtin_numbers(b, "g_Screen"@) == Some(b.screen@),
        builtin_numbers(b, "g_Texture0Translation"@) == Some(b.texture0_translation@),
        builtin_numbers(b, "g_Texture0Rotation"@) == Some(b.texture0_rotation@),
        builtin_numbers(b, "g_ModelViewProjectionMatrix"@) == Some(b.mvp@),
        builtin_numbers(b, "g_EffectModelViewProjectionMatrix"@) == Some(b.effect_mvp@),
        builtin_numbers(b, "g_ModelViewProjectionMatrixInverse"@) == Some(b.mvp_inverse@),
        builtin_numbers(b, "g_ModelMatrix"@) == Some(b.model@),
        builtin_numbers(b, "g_EffectModelMatrix"@) == Some(b.model@),
        builtin_numbers(b, "g_ModelMatrixInverse"@) == Some(b.model_inverse@),
        builtin_numbers(b, "g_ViewProjectionMatrix"@) == Some(b.view_projection@),
        builtin_numbers(b, "g_EyePosition"@) == Some(b.eye@),
        builtin_numbers(b, "g_RenderVar0"@) == Some(seq![0u32, 0, 0, 0]),
        builtin_numbers(b, "g_RenderVar1"@) == Some(seq![0u32, 0, 0, 0]),
        builtin_numbers(b, "g_RefractAmount"@) == Some(seq![0x3d4c_cccdu32]),
        builtin_numbers(b, "g_AudioSpectrum16Left"@) == Some(b.audio16@),
        builtin_numbers(b, "g_AudioSpectrum16Right"@) == Some(b.audio16@),
        builtin_numbers(b, "g_AudioSpectrum32Left"@) == Some(b.audio32@),
        builtin_numbers(b, "g_AudioSpectrum32Right"@) == Some(b.audio32@),
        builtin_numbers(b, "g_AudioSpectrum64Left"@) == Some(b.audio64@),
        builtin_numbers(b, "g_AudioSpectrum64Right"@) == Some(b.audio64@),
        builtin_numbers(b, "g_OrientationUp"@) == Some(seq![0u32, 0x3f80_0000, 0]),
        builtin_numbers(b, "g_ViewUp"@) == Some(seq![0u32, 0x3f80_0000, 0]),
        builtin_numbers(b, "g_OrientationRight"@) == Some(seq![0x3f80_0000u32, 0, 0]),
        builtin_numbers(b, "g_ViewRight"@) == Some(seq![0x3f80_0000u32, 0, 0]),
        builtin_numbers(b, "g_OrientationForward"@) == Some(seq![0u32, 0, 0x3f80_0000]),
{
    lemma_name_lengths();
    lemma_names_of_one_length_differ();
    lemma_names_without_a_texture();
}

/// The colour of a layer is given as red, green and blue, and once more with
/// its alpha behind; the two ways agree.
pub proof fn law_colors_keep_their_channels(b: Builtins, i: int)
    requires
        0 <= i < 3,
    ensures
        builtin_numbers(b, "g_Color"@) matches Some(c) && c.len() == 3 && c[i] == b.color[i],
        builtin_numbers(b, "g_CompositeColor"@) == builtin_numbers(b, "g_Color"@),
        builtin_numbers(b, "g_Color4"@) matches Some(c) && c.len() == 4 && c[i] == builtin_numbers(
            b,
            "g_Color"@,
        )->0[i] && c[3] == b.color[3],
{
    lemma_name_lengths();
    lemma_names_of_one_length_differ();
    lemma_names_without_a_texture();
    assert(i == 0 || i == 1 || i == 2);
}

/// The matrices that change nothing have ones on the diagonal and zeroes
/// everywhere else.
pub proof fn law_neutral_matrices_change_nothing(b: Builtins, row: int, column: int)
    ensures
        0 <= row < 4 && 0 <= column < 4 ==> {
            &&& builtin_numbers(b, "g_EffectTextureProjectionMatrix"@) matches Some(m) && m.len() == 16
                && m[column * 4 + row] == (if row == column {
                0x3f80_0000u32
            } else {
                0
            })
            &&& builtin_numbers(b, "g_EffectTextureProjectionMatrixInverse"@) == builtin_numbers(
                b,
                "g_EffectTextureProjectionMatrix"@,
            )
        },
        0 <= row < 3 && 0 <= column < 3 ==> (builtin_numbers(b, "g_NormalModelMatrix"@) matches Some(m)
            && m.len() == 9 && m[column * 3 + row] == (if row == column {
            0x3f80_0000u32
        } else {
            0
        })),
{
    lemma_name_lengths();
    lemma_names_of_one_length_differ();
    lemma_names_without_a_texture();
    assert(0 <= row < 4 ==> row == 0 || row == 1 || row == 2 || row == 3);
    assert(0 <= column < 4 ==> column == 0 || column == 1 || column == 2 || column == 3);
}

/// Every value that a shader knows by name has the type that its numbers fill.
pub proof fn law_built_in_values_have_their_type()
    ensures
        builtin_gl("g_Time"@) == Some(GlType::Float),
        builtin_gl("g_Daytime"@) == Some(GlType::Float),
        builtin_gl("g_Brightness"@) == Some(GlType::Float),
        builtin_gl("g_Alpha"@) == Some(GlType::Float),
        builtin_gl("g_UserAlpha"@) == Some(GlType::Float),
        builtin_gl("g_TextureReductionScale"@) == Some(GlType::Float),
        builtin_gl("g_Color4"@) == Some(GlType::Vec4),
        builtin_gl("g_LightAmbientColor"@) == Some(GlType::Vec3),
        builtin_gl("g_LightSkylightColor"@) == Some(GlType::Vec3),
        builtin_gl("g_PointerPosition"@) == Some(GlType::Vec2),
        builtin_gl("g_PointerPositionLast"@) == Some(GlType::Vec2),
        builtin_gl("g_TexelSize"@) == Some(GlType::Vec2),
        builtin_gl("g_TexelSizeHalf"@) == Some(GlType::Vec2),
        builtin_gl("g_Screen"@) == Some(GlType::Vec3),
        builtin_gl("g_Texture0Translation"@) == Some(GlType::Vec2),
        builtin_gl("g_Texture0Rotation"@) == Some(GlType::Vec4),
        builtin_gl("g_ModelViewProjectionMatrix"@) == Some(GlType::Mat4),
        builtin_gl("g_EffectModelViewProjectionMatrix"@) == Some(GlType::Mat4),
        builtin_gl("g_ModelViewProjectionMatrixInverse"@) == Some(GlType::Mat4),
        builtin_gl("g_ModelMatrix"@) == Some(GlType::Mat4),
        builtin_gl("g_EffectModelMatrix"@) == Some(GlType::Mat4),
        builtin_gl("g_ModelMatrixInverse"@) == Some(GlType::Mat4),
        builtin_gl("g_ViewProjectionMatrix"@) == Some(GlType::Mat4),
        builtin_gl("g_EyePosition"@) == Some(GlType::Vec3),
        builtin_gl("g_RenderVar0"@) == Some(GlType::Vec4),
        builtin_gl("g_RenderVar1"@) == Some(GlType::Vec4),
        builtin_gl("g_RefractAmount"@) == Some(GlType::Float),
        builtin_gl("g_AudioSpectrum16Left"@) == Some(GlType::FloatArray(16)),
        builtin_gl("g_AudioSpectrum16Right"@) == Some(GlType::FloatArray(16)),
        builtin_gl("g_AudioSpectrum32Left"@) == Some(GlType::FloatArray(32)),
        builtin_gl("g_AudioSpectrum32Right"@) == Some(GlType::FloatArray(32)),
        builtin_gl("g_AudioSpectrum64Left"@) == Some(GlType::FloatArray(64)),
        builtin_gl("g_AudioSpectrum64Right"@) == Some(GlType::FloatArray(64)),
        builtin_gl("g_OrientationUp"@) == Some(GlType::Vec3),
        builtin_gl("g_ViewUp"@) == Some(GlType::Vec3),
        builtin_gl("g_OrientationRight"@) == Some(GlType::Vec3),
        builtin_gl("g_ViewRight"@) == Some(GlType::Vec3),
        builtin_gl("g_OrientationForward"@) == Some(GlType::Vec3),
        builtin_gl("g_Color"@) == Some(GlType::Vec3),
        builtin_gl("g_CompositeColor"@) == Some(GlType::Vec3),
        builtin_gl("g_EffectTextureProjectionMatrix"@) == Some(GlType::Mat4),
        builtin_gl("g_EffectTextureProjectionMatrixInverse"@) == Some(GlType::Mat4),
        builtin_gl("g_NormalModelMatrix"@) == Some(GlType::Mat3),
{
    lemma_name_lengths();
    lemma_names_of_one_length_differ();
    lemma_names_without_a_texture();
}

/// The size of the texture in slot `n` is the one that the frame has for that
/// slot.
pub proof fn law_textures_have_their_resolution(b: Builtins, n: int, d: char)
    requires
        0 <= n < 8,
        d as u32 == 48 + n,
    ensures
        builtin_numbers(b, "g_Texture"@ + seq![d] + "Resolution"@) == Some(b.texture_resolution[n]@),
        builtin_gl("g_Texture"@ + seq![d] + "Resolution"@) == Some(GlType::Vec4),
{
    let name = "g_Texture"@ + seq![d] + "Resolution"@;
    reveal_strlit("g_Texture");
    reveal_strlit("Resolution");
    assert("g_Texture"@.len() == 9 && "Resolution"@.len() == 10);
    assert(name.take(9) =~= "g_Texture"@);
    assert(name.skip(10) =~= "Resolution"@);
    assert(name.subrange(9, 10) =~= seq![d]);
    assert(resolution_index(name) == Some(seq![d]));
    reveal_with_fuel(digits_value, 2);
    assert(seq![d].drop_last() =~= Seq::<char>::empty());
    assert(digits_value(seq![d]) == n);
    assert(digit_char(d));
    assert(all_digits(seq![d]));
    assert(index_text(seq![d]) == Some(n as usize));
}

/// A name that the frame has a value for means that value; any other name
/// means the parameter of that name, or nothing.
pub proof fn law_names_mean_built_in_values_first(
    b: Builtins,
    params: Map<Seq<char>, Seq<u32>>,
    name: Seq<char>,
)
    ensures
        builtin_numbers(b, name) is Some ==> numbers_for(b, params, name) == builtin_numbers(b, name),
        builtin_numbers(b, name) is None && params.contains_key(name) ==> numbers_for(b, params, name)
            == Some(params[name]),
        builtin_numbers(b, name) is None && !params.contains_key(name) ==> numbers_for(
            b,
            params,
            name,
        ) is None,
{
}

/// The numbers of a value stand one behind the other, four bytes each; those
/// of an array 16 bytes apart, and so do the columns of a matrix of three.
pub proof fn law_numbers_have_their_place(ty: GlType, offset: int, column: int, row: int, j: int)
    requires
        0 <= j,
        0 <= column < 3,
        0 <= row < 3,
    ensures
        place_in(GlType::Mat3, offset, column * 3 + row) == offset + column * 16 + row * 4,
        forall|n: usize| #[trigger] place_in(GlType::FloatArray(n), offset, j) == offset + 16 * j,
        !(ty is Mat3) && !(ty is FloatArray) ==> place_in(ty, offset, j) == offset + 4 * j,
        place_in(ty, offset, 0) == offset,
{
    assert(column == 0 || column == 1 || column == 2);
    assert(row == 0 || row == 1 || row == 2);
}

/// A value takes four bytes for each of its numbers; arrays and matrices of
/// three take 16 for each of their numbers or columns. A value of three or
/// four numbers, and anything larger, begins at a multiple of 16.
pub proof fn law_types_have_their_size(n: usize)
    ensures
        GlType::Float.byte_size() == 4 && GlType::Float.alignment() == 4,
        GlType::Vec2.byte_size() == 2 * 4 && GlType::Vec2.alignment() == 8,
        GlType::Vec3.byte_size() == 3 * 4 && GlType::Vec3.alignment() == 16,
        GlType::Vec4.byte_size() == 4 * 4 && GlType::Vec4.alignment() == 16,
        GlType::Mat3.byte_size() == 3 * 16 && GlType::Mat3.alignment() == 16,
        GlType::Mat4.byte_size() == 4 * 16 && GlType::Mat4.alignment() == 16,
        GlType::FloatArray(n).byte_size() == 16 * n && GlType::FloatArray(n).alignment() == 16,
{
}

/// The numbers that are written of a value are those that it is given, but no
/// more than an array holds; a matrix of three is always written whole.
pub proof fn law_values_are_written_whole(ty: GlType, given: nat, n: usize)
    ensures
        written_count(GlType::Mat3, given) == 9,
        written_count(GlType::FloatArray(n), given) <= n,
        given <= n ==> written_count(GlType::FloatArray(n), given) == given,
        given >= n ==> written_count(GlType::FloatArray(n), given) == n,
        !(ty is Mat3) && !(ty is FloatArray) ==> written_count(ty, given) == given,
{
}

/// The four bytes of a number, the lowest first, are the number.
pub proof fn law_bytes_are_the_number(v: u32)
    ensures
        byte_of(v, 0) + byte_of(v, 1) * 0x100 + byte_of(v, 2) * 0x1_0000 + byte_of(v, 3) * 0x100_0000
            == v,
{
}

/// A parameter of a shader has the type that it is declared with, under its
/// own name; of two of one name, the later.
pub proof fn law_parameters_have_their_type(params: Seq<ParamModel>, k: int, i: int)
    requires
        0 <= i < k <= params.len(),
        forall|j: int| i < j < k ==> (#[trigger] params[j]).name != params[i].name,
    ensures
        types_upto(params, k).contains_key(params[i].name),
        types_upto(params, k)[params[i].name] == (match params[i].ty {
            ParamType::Float => GlType::Float,
            ParamType::Int => GlType::Float,
            ParamType::Vec2 => GlType::Vec2,
            ParamType::Vec3 => GlType::Vec3,
            ParamType::Vec4 => GlType::Vec4,
        }),
    decreases k,
{
    if i < k - 1 {
        assert(params[k - 1].name != params[i].name);
        law_parameters_have_their_type(params, k - 1, i);
    }
}

/// A value that the frame does not have is of the type that the shader
/// declares for it, or a single number.
pub proof fn law_members_have_their_type(name: Seq<char>, types: Map<Seq<char>, GlType>, t: GlType)
    ensures
        builtin_gl(name) == Some(t) ==> member_type(name, types) == t,
        builtin_gl(name) is None && types.contains_key(name) ==> member_type(name, types) == types[name],
        builtin_gl(name) is None && !types.contains_key(name) ==> member_type(name, types)
            == GlType::Float,
{
}

/// A parameter takes the material's constant that has its name, number for
/// number, with zeroes for those that are missing and without those that are
/// too many.
pub proof fn law_parameters_take_their_constant(
    constants: Constants,
    p: ParamModel,
    i: int,
    s: Seq<Number>,
    c: (Number, Number, Number, Number),
    f: Number,
    w: i64,
)
    requires
        constants.contains_key(p.material),
    ensures
        param_value(constants, p) is Some,
        ({
            let given = constants[p.material].value;
            let v = param_value(constants, p)->0;
            &&& v.len() == (match p.ty {
                ParamType::Float => 1nat,
                ParamType::Int => 1,
                ParamType::Vec2 => 2,
                ParamType::Vec3 => 3,
                ParamType::Vec4 => 4,
            })
            &&& given == Dynamic::Vec(s) && 0 <= i < v.len() ==> v[i] == (if i < s.len() {
                    s[i]
                } else {
                    Number::Single(0)
                })
            &&& given == Dynamic::Color(c) ==> v[0] == c.0 && (v.len() > 1 ==> v[1] == c.1) && (
                v.len() > 2 ==> v[2] == c.2) && (v.len() > 3 ==> v[3] == c.3)
            &&& given == Dynamic::Float(f) ==> v[0] == f
            &&& given == Dynamic::Int(w) ==> v[0] == Number::Int(w)
            &&& given == Dynamic::Bool(true) ==> v[0] == Number::Single(0x3f80_0000)
            &&& given == Dynamic::Bool(false) || given == Dynamic::Null ==> v[0] == Number::Single(0)
            &&& !(given is Vec) && !(given is Color) && 1 <= i < v.len() ==> v[i] == Number::Single(0)
        }),
{
    assert(gives(constants, p.material, p.material));
    let k = choose|k: Seq<char>| #[trigger] gives(constants, p.material, k);
    assert(k == p.material);
}

/// A parameter that no constant is named for, in whatever case, keeps what the
/// shader gives it itself.
pub proof fn law_parameters_keep_their_default(constants: Constants, p: ParamModel)
    requires
        forall|k: Seq<char>| #[trigger] constants.contains_key(k) ==> lower(k) != lower(p.material),
    ensures
        param_value(constants, p) == p.default,
{
    assert forall|k: Seq<char>| !#[trigger] gives(constants, p.material, k) by {
        if constants.contains_key(p.material) {
            assert(lower(p.material) != lower(p.material));
        }
    }
}

/// Where only one constant is named for a parameter but for case, the
/// parameter takes that one.
pub proof fn law_case_does_not_matter(constants: Constants, p: ParamModel, k: Seq<char>)
    requires
        constants.contains_key(k),
        lower(k) == lower(p.material),
        forall|o: Seq<char>| #[trigger]
            constants.contains_key(o) && lower(o) == lower(p.material) ==> o == k,
    ensures
        param_value(constants, p) == param_value(constants, ParamModel { material: k, ..p }),
{
    lemma_not_less(k);
    assert(gives(constants, p.material, k));
    let chosen = choose|o: Seq<char>| #[trigger] gives(constants, p.material, o);
    assert(chosen == k);
    assert(gives(constants, k, k));
    let same = choose|o: Seq<char>| #[trigger] gives(constants, k, o);
    assert(same == k);
}

proof fn lemma_not_less(s: Seq<char>)
    ensures
        !crate::strings::text_less(s, s),
    decreases s.len(),
{
    if s.len() > 0 {
        lemma_not_less(s.skip(1));
    }
}

/// The values of the parameters of a shader are kept under the names that the
/// shader has for them; of two of one name, the later that has a value.
pub proof fn law_parameters_are_kept_by_name(constants: Constants, params: Seq<ParamModel>, n: int, i: int)
    requires
        0 <= i < n <= params.len(),
        param_value(constants, params[i]) is Some,
        forall|j: int| i < j < n ==> (#[trigger] params[j]).name != params[i].name,
    ensures
        param_values(constants, params, n).contains_key(params[i].name),
        Some(param_values(constants, params, n)[params[i].name]) == param_value(constants, params[i]),
    decreases n,
{
    if i < n - 1 {
        assert(params[n - 1].name != params[i].name);
        law_parameters_are_kept_by_name(constants, params, n - 1, i);
    }
}

/// The constants that count for a shader are those that a parameter of one of
/// its two stages is named for, as the material has them.
pub proof fn law_used_constants_are_named(
    constants: Constants,
    vs: Seq<ParamModel>,
    fs: Seq<ParamModel>,
    k: Seq<char>,
)
    ensures
        used_constants(constants, vs, fs).contains_key(k) <==> constants.contains_key(k) && ((exists|
            i: int,
        |
            0 <= i < vs.len() && (#[trigger] vs[i]).material == k) || (exists|i: int|
            0 <= i < fs.len() && (#[trigger] fs[i]).material == k)),
        used_constants(constants, vs, fs).contains_key(k) ==> used_constants(constants, vs, fs)[k]
            == constants[k],
{
}

} // verus!
